use vstd::prelude::*;
use crate::selection::Mode;

verus! {

/// Modifier bit for the shift key.
pub const SHIFT: u8 = 1;
/// Modifier bit for the control key.
pub const CONTROL: u8 = 2;
/// Modifier bit for the alt key.
pub const ALT: u8 = 4;

/// The key of a key press.
#[derive(Clone, Copy, Debug, PartialEq, Eq, Structural)]
pub enum KeyCode {
    Char(char),
    Esc,
    Enter,
    Tab,
    Backspace,
    Delete,
    Left,
    Right,
    Up,
    Down,
    Home,
    End,
    PageUp,
    PageDown,
    BackTab,
    Insert,
    F(u8),
    Null,
}

/// A key press: its key and a set of modifier bits.
#[derive(Clone, Copy, Debug, PartialEq, Eq, Structural)]
pub struct KeyEvent {
    pub code: KeyCode,
    pub modifiers: u8,
}

impl KeyEvent {
    pub open spec fn is_esc(self) -> bool {
        self.code == KeyCode::Esc && self.modifiers == 0
    }

    pub open spec fn is_ctrl_char(self, c: char) -> bool {
        self.code == KeyCode::Char(c) && self.modifiers == CONTROL
    }

    /// An unmodified escape.
    pub fn esc(&self) -> (r: bool)
        ensures
            r == self.is_esc(),
    {
        match self.code {
            KeyCode::Esc => self.modifiers == 0,
            _ => false,
        }
    }

    /// The character `c` with control held and nothing else.
    pub fn ctrl_char(&self, c: char) -> (r: bool)
        ensures
            r == self.is_ctrl_char(c),
    {
        match self.code {
            KeyCode::Char(k) => k == c && self.modifiers == CONTROL,
            _ => false,
        }
    }
}

impl KeyEvent {
    /// The character a key press types, if it types one.
    pub open spec fn char_spec(self) -> Option<char> {
        match self.code {
            KeyCode::Char(c) => Some(c),
            _ => None,
        }
    }

    /// See [`KeyEvent::char_spec`].
    pub fn char(&self) -> (r: Option<char>)
        ensures
            r == self.char_spec(),
    {
        match self.code {
            KeyCode::Char(c) => Some(c),
            _ => None,
        }
    }

    /// An unmodified decimal digit, and its value.
    pub open spec fn digit_spec(self) -> Option<usize> {
        match self.code {
            KeyCode::Char(c) => if self.modifiers == 0 && '0' <= c <= '9' {
                Some((c as u32 - '0' as u32) as usize)
            } else {
                None
            },
            _ => None,
        }
    }

    /// See [`KeyEvent::digit_spec`].
    pub fn digit(&self) -> (r: Option<usize>)
        ensures
            r == self.digit_spec(),
    {
        match self.code {
            KeyCode::Char(c) => if self.modifiers == 0 && '0' <= c && c <= '9' {
                Some(((c as u32) - ('0' as u32)) as usize)
            } else {
                None
            },
            _ => None,
        }
    }
}

/// Drops shift from a character key: the character already says it.
pub fn canonicalize_key(key: &mut KeyEvent)
    ensures
        final(key).code == old(key).code,
        (old(key).code is Char) ==> final(key).modifiers == old(key).modifiers & !SHIFT,
        !(old(key).code is Char) ==> final(key).modifiers == old(key).modifiers,
{
    match key.code {
        KeyCode::Char(_) => {
            key.modifiers = key.modifiers & !SHIFT;
        },
        _ => {},
    }
}

/// A key sequence bound to the commands it runs, in order.
pub struct Binding {
    pub keys: Vec<KeyEvent>,
    pub commands: Vec<usize>,
}

/// What a key press resolved to in a keymap.
#[derive(Debug, PartialEq, Eq)]
pub enum KeymapResult {
    /// A sequence bound to one command was completed.
    Matched(usize),
    /// A sequence bound to several commands was completed.
    MatchedSequence(Vec<usize>),
    /// The keys so far begin some bound sequence.
    Pending,
    /// A lone key that is bound to nothing.
    NotFound,
    /// Keys that began a sequence and then left every binding; they are
    /// handed back in order.
    Cancelled(Vec<KeyEvent>),
}

/// `a` begins `b` and is shorter.
pub open spec fn proper_prefix(a: Seq<KeyEvent>, b: Seq<KeyEvent>) -> bool {
    a.len() < b.len() && b.subrange(0, a.len() as int) == a
}

pub open spec fn binds_exactly(bs: Seq<Binding>, i: int, keys: Seq<KeyEvent>) -> bool {
    0 <= i < bs.len() && bs[i].keys@ == keys
}

pub open spec fn has_exact(bs: Seq<Binding>, keys: Seq<KeyEvent>) -> bool {
    exists|i: int| binds_exactly(bs, i, keys)
}

pub open spec fn has_longer(bs: Seq<Binding>, keys: Seq<KeyEvent>) -> bool {
    exists|i: int| 0 <= i < bs.len() && proper_prefix(keys, #[trigger] bs[i].keys@)
}

/// The first binding of exactly `keys`.
pub open spec fn first_exact(bs: Seq<Binding>, keys: Seq<KeyEvent>, i: int) -> bool {
    binds_exactly(bs, i, keys) && forall|j: int| 0 <= j < i ==> !binds_exactly(bs, j, keys)
}

/// The resolution of `keys`, the keys pending before and the new one, in
/// the bindings `bs`; the keys pending afterwards.
pub open spec fn resolves(bs: Seq<Binding>, pending: Seq<KeyEvent>, key: KeyEvent, r: KeymapResult, after: Seq<KeyEvent>) -> bool {
    let keys = pending.push(key);
    &&& has_exact(bs, keys) ==> after.len() == 0 && exists|i: int| first_exact(bs, keys, i) && (
        if bs[i].commands@.len() == 1 { r == KeymapResult::Matched(bs[i].commands@[0]) } else { r matches KeymapResult::MatchedSequence(cs) && cs@ == bs[i].commands@ })
    &&& !has_exact(bs, keys) && has_longer(bs, keys) ==> r == KeymapResult::Pending && after == keys
    &&& !has_exact(bs, keys) && !has_longer(bs, keys) && pending.len() > 0 ==> after.len() == 0 && (r matches KeymapResult::Cancelled(ks) && ks@ == keys)
    &&& !has_exact(bs, keys) && !has_longer(bs, keys) && pending.len() == 0 ==> after.len() == 0 && r == KeymapResult::NotFound
}

fn keys_equal(a: &Vec<KeyEvent>, b: &Vec<KeyEvent>, n: usize) -> (r: bool)
    requires
        n <= a@.len(),
    ensures
        r == (n <= b@.len() && b@.subrange(0, n as int) == a@.subrange(0, n as int)),
{
    if n > b.len() {
        return false;
    }
    let mut i: usize = 0;
    while i < n
        invariant
            i <= n <= a@.len(),
            n <= b@.len(),
            b@.subrange(0, i as int) == a@.subrange(0, i as int),
        decreases n - i,
    {
        if a[i] != b[i] {
            assert(b@.subrange(0, n as int)[i as int] != a@.subrange(0, n as int)[i as int]);
            return false;
        }
        assert(b@.subrange(0, i as int + 1) =~= a@.subrange(0, i as int + 1));
        i = i + 1;
    }
    true
}

/// The keymaps of the three modes and the keys of a sequence in progress.
pub struct Keymaps {
    pub normal: Vec<Binding>,
    pub insert: Vec<Binding>,
    pub select: Vec<Binding>,
    pub pending: Vec<KeyEvent>,
}

impl Keymaps {
    pub open spec fn of_mode(&self, mode: Mode) -> Seq<Binding> {
        match mode {
            Mode::Normal => self.normal@,
            Mode::Insert => self.insert@,
            Mode::Select => self.select@,
        }
    }

    pub fn new(normal: Vec<Binding>, insert: Vec<Binding>, select: Vec<Binding>) -> (r: Keymaps)
        ensures
            r.normal@ == normal@,
            r.insert@ == insert@,
            r.select@ == select@,
            r.pending@.len() == 0,
    {
        Keymaps { normal, insert, select, pending: Vec::new() }
    }

    /// The keys of the sequence in progress.
    pub fn pending(&self) -> (r: &Vec<KeyEvent>)
        ensures
            r@ == self.pending@,
    {
        &self.pending
    }

    /// Resolves a key press in a mode's keymap, after the keys pending.
    pub fn get(&mut self, mode: Mode, key: KeyEvent) -> (r: KeymapResult)
        ensures
            resolves(old(self).of_mode(mode), old(self).pending@, key, r, final(self).pending@),
            final(self).normal@ == old(self).normal@,
            final(self).insert@ == old(self).insert@,
            final(self).select@ == old(self).select@,
    {
        let (r, after) = match mode {
            Mode::Normal => resolve(&self.normal, &self.pending, key),
            Mode::Insert => resolve(&self.insert, &self.pending, key),
            Mode::Select => resolve(&self.select, &self.pending, key),
        };
        self.pending = after;
        r
    }
}

/// Resolves a key press in the bindings `bs` after the keys `pending`;
/// returns the resolution and the keys pending afterwards.
fn resolve(bs: &Vec<Binding>, pending: &Vec<KeyEvent>, key: KeyEvent) -> (r: (KeymapResult, Vec<KeyEvent>))
    ensures
        resolves(bs@, pending@, key, r.0, r.1@),
{
    let mut keys: Vec<KeyEvent> = pending.clone();
    keys.push(key);
    assert(keys@ =~= pending@.push(key));
    let ghost bv = bs@;
    let mut longer = false;
    let mut i: usize = 0;
    while i < bs.len()
        invariant
            i <= bv.len(),
            bv == bs@,
            keys@ == pending@.push(key),
            forall|j: int| 0 <= j < i ==> !binds_exactly(bv, j, keys@),
            longer == exists|j: int| 0 <= j < i && proper_prefix(keys@, #[trigger] bv[j].keys@),
        decreases bv.len() - i,
    {
        let b = &bs[i];
        let kl = keys.len();
        let same_len = b.keys.len() == kl;
        let starts = keys_equal(&keys, &b.keys, kl);
        assert(keys@.subrange(0, kl as int) =~= keys@);
        if same_len && starts {
            assert(b.keys@ =~= keys@);
            assert(first_exact(bv, keys@, i as int));
            let cs = &b.commands;
            let r = if cs.len() == 1 {
                KeymapResult::Matched(cs[0])
            } else {
                KeymapResult::MatchedSequence(cs.clone())
            };
            assert(has_exact(bv, keys@));
            let empty: Vec<KeyEvent> = Vec::new();
            return (r, empty);
        }
        if !same_len && starts {
            longer = true;
        }
        assert(!binds_exactly(bv, i as int, keys@));
        i = i + 1;
    }
    assert(!has_exact(bv, keys@));
    if longer {
        (KeymapResult::Pending, keys)
    } else if pending.len() > 0 {
        (KeymapResult::Cancelled(keys), Vec::new())
    } else {
        (KeymapResult::NotFound, Vec::new())
    }
}

/// The name of a key without its modifiers.
pub open spec fn code_name(code: KeyCode) -> Seq<char> {
    match code {
        KeyCode::Backspace => seq!['b', 'a', 'c', 'k', 's', 'p', 'a', 'c', 'e'],
        KeyCode::Enter => seq!['r', 'e', 't'],
        KeyCode::Left => seq!['l', 'e', 'f', 't'],
        KeyCode::Right => seq!['r', 'i', 'g', 'h', 't'],
        KeyCode::Up => seq!['u', 'p'],
        KeyCode::Down => seq!['d', 'o', 'w', 'n'],
        KeyCode::Home => seq!['h', 'o', 'm', 'e'],
        KeyCode::End => seq!['e', 'n', 'd'],
        KeyCode::PageUp => seq!['p', 'a', 'g', 'e', 'u', 'p'],
        KeyCode::PageDown => seq!['p', 'a', 'g', 'e', 'd', 'o', 'w', 'n'],
        KeyCode::Tab => seq!['t', 'a', 'b'],
        KeyCode::BackTab => seq!['b', 'a', 'c', 'k', 't', 'a', 'b'],
        KeyCode::Delete => seq!['d', 'e', 'l'],
        KeyCode::Insert => seq!['i', 'n', 's'],
        KeyCode::Null => seq!['n', 'u', 'l', 'l'],
        KeyCode::Esc => seq!['e', 's', 'c'],
        KeyCode::Char(c) => if c == ' ' {
            seq!['s', 'p', 'a', 'c', 'e']
        } else if c == '-' {
            seq!['m', 'i', 'n', 'u', 's']
        } else if c == '<' {
            seq!['l', 't']
        } else if c == '>' {
            seq!['g', 't']
        } else {
            seq![c]
        },
        KeyCode::F(n) => seq!['F'] + crate::statusline::decimal(n as nat),
    }
}

/// A key as text: "S-", "A-" and "C-" for shift, alt and control, in
/// that order, then the key's name.
pub open spec fn key_name_spec(k: KeyEvent) -> Seq<char> {
    (if k.modifiers & SHIFT != 0 { seq!['S', '-'] } else { seq![] })
        + (if k.modifiers & ALT != 0 { seq!['A', '-'] } else { seq![] })
        + (if k.modifiers & CONTROL != 0 { seq!['C', '-'] } else { seq![] })
        + code_name(k.code)
}

fn push_str(v: &mut Vec<char>, s: &str)
    requires
        s.is_ascii(),
    ensures
        final(v)@ == old(v)@ + s@,
{
    let n = s.unicode_len();
    let mut i: usize = 0;
    while i < n
        invariant
            i <= n,
            n == s@.len(),
            v@ == old(v)@ + s@.take(i as int),
        decreases n - i,
    {
        v.push(s.get_char(i));
        assert(s@.take(i as int + 1) =~= s@.take(i as int).push(s@[i as int]));
        i = i + 1;
    }
    assert(s@.take(i as int) =~= s@);
}

fn append_chars(v: &mut Vec<char>, s: &Vec<char>)
    ensures
        final(v)@ == old(v)@ + s@,
{
    let mut i: usize = 0;
    while i < s.len()
        invariant
            i <= s@.len(),
            v@ == old(v)@ + s@.take(i as int),
        decreases s@.len() - i,
    {
        v.push(s[i]);
        assert(s@.take(i as int + 1) =~= s@.take(i as int).push(s@[i as int]));
        i = i + 1;
    }
    assert(s@.take(i as int) =~= s@);
}

fn named(s: &str) -> (r: Vec<char>)
    requires
        s.is_ascii(),
    ensures
        r@ == s@,
{
    let mut v: Vec<char> = Vec::new();
    push_str(&mut v, s);
    assert(v@ =~= s@);
    v
}

/// See [`code_name`].
pub fn code_name_chars(code: KeyCode) -> (r: Vec<char>)
    ensures
        r@ == code_name(code),
{
    match code {
        KeyCode::Backspace => { proof { reveal_strlit("backspace"); } named("backspace") },
        KeyCode::Enter => { proof { reveal_strlit("ret"); } named("ret") },
        KeyCode::Left => { proof { reveal_strlit("left"); } named("left") },
        KeyCode::Right => { proof { reveal_strlit("right"); } named("right") },
        KeyCode::Up => { proof { reveal_strlit("up"); } named("up") },
        KeyCode::Down => { proof { reveal_strlit("down"); } named("down") },
        KeyCode::Home => { proof { reveal_strlit("home"); } named("home") },
        KeyCode::End => { proof { reveal_strlit("end"); } named("end") },
        KeyCode::PageUp => { proof { reveal_strlit("pageup"); } named("pageup") },
        KeyCode::PageDown => { proof { reveal_strlit("pagedown"); } named("pagedown") },
        KeyCode::Tab => { proof { reveal_strlit("tab"); } named("tab") },
        KeyCode::BackTab => { proof { reveal_strlit("backtab"); } named("backtab") },
        KeyCode::Delete => { proof { reveal_strlit("del"); } named("del") },
        KeyCode::Insert => { proof { reveal_strlit("ins"); } named("ins") },
        KeyCode::Null => { proof { reveal_strlit("null"); } named("null") },
        KeyCode::Esc => { proof { reveal_strlit("esc"); } named("esc") },
        KeyCode::Char(c) => {
            if c == ' ' {
                proof { reveal_strlit("space"); }
                named("space")
            } else if c == '-' {
                proof { reveal_strlit("minus"); }
                named("minus")
            } else if c == '<' {
                proof { reveal_strlit("lt"); }
                named("lt")
            } else if c == '>' {
                proof { reveal_strlit("gt"); }
                named("gt")
            } else {
                let mut v: Vec<char> = Vec::new();
                v.push(c);
                assert(v@ =~= seq![c]);
                v
            }
        },
        KeyCode::F(n) => {
            let mut v: Vec<char> = Vec::new();
            v.push('F');
            let d = crate::statusline::decimal_chars(n as usize);
            append_chars(&mut v, &d);
            assert(v@ =~= seq!['F'] + d@);
            v
        },
    }
}

/// See [`key_name_spec`].
pub fn key_name(k: &KeyEvent) -> (r: Vec<char>)
    ensures
        r@ == key_name_spec(*k),
{
    let mut v: Vec<char> = Vec::new();
    let ghost v0 = v@;
    if k.modifiers & SHIFT != 0 {
        v.push('S');
        v.push('-');
    }
    let ghost v1 = v@;
    assert(v1 =~= v0 + (if k.modifiers & SHIFT != 0 { seq!['S', '-'] } else { seq![] }));
    if k.modifiers & ALT != 0 {
        v.push('A');
        v.push('-');
    }
    let ghost v2 = v@;
    assert(v2 =~= v1 + (if k.modifiers & ALT != 0 { seq!['A', '-'] } else { seq![] }));
    if k.modifiers & CONTROL != 0 {
        v.push('C');
        v.push('-');
    }
    let ghost v3 = v@;
    assert(v3 =~= v2 + (if k.modifiers & CONTROL != 0 { seq!['C', '-'] } else { seq![] }));
    let name = code_name_chars(k.code);
    append_chars(&mut v, &name);
    assert(v@ =~= key_name_spec(*k));
    v
}

/// The pending keys as shown: each key's name, in angle brackets when it
/// is longer than one character.
pub open spec fn keys_text(keys: Seq<KeyEvent>) -> Seq<char>
    decreases keys.len(),
{
    if keys.len() == 0 {
        seq![]
    } else {
        let name = key_name_spec(keys.last());
        keys_text(keys.drop_last()) + if name.len() > 1 { seq!['<'] + name + seq!['>'] } else { name }
    }
}

/// The bytes that a character takes in UTF-8.
pub open spec fn utf8_len(c: char) -> int {
    if (c as u32) < 0x80 { 1 } else if (c as u32) < 0x800 { 2 } else if (c as u32) < 0x10000 { 3 } else { 4 }
}

/// Scanning back from the `i`-th character, where a suffix of exactly
/// `n` more bytes starts; `None` when the start falls inside a character
/// or before the text.
pub open spec fn suffix_start(s: Seq<char>, n: int, i: int) -> Option<int>
    decreases i,
{
    if n <= 0 {
        Some(i)
    } else if i <= 0 {
        None
    } else if utf8_len(s[i - 1]) > n {
        None
    } else {
        suffix_start(s, n - utf8_len(s[i - 1]), i - 1)
    }
}

/// The count being typed and the keys of the sequence in progress, as
/// shown in the corner of the screen: their last `limit` bytes where that
/// cut falls between characters, and all of them otherwise.
pub open spec fn pending_display_spec(count: Option<usize>, keys: Seq<KeyEvent>, limit: int) -> Seq<char> {
    let all = (match count {
        Some(n) => crate::statusline::decimal(n as nat),
        None => seq![],
    }) + keys_text(keys);
    match suffix_start(all, limit, all.len() as int) {
        Some(k) => all.skip(k),
        None => all,
    }
}

fn utf8_len_of(c: char) -> (r: usize)
    ensures
        r == utf8_len(c),
{
    let v = c as u32;
    if v < 0x80 { 1 } else if v < 0x800 { 2 } else if v < 0x10000 { 3 } else { 4 }
}

/// See [`pending_display_spec`].
pub fn pending_keys_display(count: Option<usize>, keys: &Vec<KeyEvent>, limit: usize) -> (r: Vec<char>)
    ensures
        r@ == pending_display_spec(count, keys@, limit as int),
{
    let mut all: Vec<char> = match count {
        Some(n) => crate::statusline::decimal_chars(n),
        None => Vec::new(),
    };
    let ghost base = all@;
    assert(base + keys_text(keys@.take(0)) =~= base);
    let mut i: usize = 0;
    while i < keys.len()
        invariant
            i <= keys@.len(),
            all@ == base + keys_text(keys@.take(i as int)),
        decreases keys@.len() - i,
    {
        let ghost before = all@;
        let name = key_name(&keys[i]);
        let long = name.len() > 1;
        if long {
            all.push('<');
        }
        let mut j: usize = 0;
        let ghost mid = all@;
        while j < name.len()
            invariant
                j <= name@.len(),
                all@ == mid + name@.take(j as int),
            decreases name@.len() - j,
        {
            all.push(name[j]);
            assert(name@.take(j as int + 1) =~= name@.take(j as int).push(name@[j as int]));
            j = j + 1;
        }
        assert(name@.take(j as int) =~= name@);
        if long {
            all.push('>');
        }
        proof {
            let tk = keys@.take(i as int + 1);
            assert(tk.drop_last() =~= keys@.take(i as int));
            assert(tk.last() == keys@[i as int]);
            if long {
                assert(all@ =~= before + (seq!['<'] + name@ + seq!['>']));
            } else {
                assert(all@ =~= before + name@);
            }
            assert(all@ =~= base + keys_text(tk));
        }
        i = i + 1;
    }
    assert(keys@.take(i as int) =~= keys@);
    let mut k: usize = all.len();
    let mut rem: usize = limit;
    let mut fits = true;
    while k > 0 && rem > 0 && fits
        invariant
            k <= all@.len(),
            fits ==> suffix_start(all@, rem as int, k as int) == suffix_start(all@, limit as int, all@.len() as int),
            !fits ==> suffix_start(all@, limit as int, all@.len() as int).is_none(),
        decreases k + (if fits { 1int } else { 0int }),
    {
        let l = utf8_len_of(all[k - 1]);
        if l > rem {
            fits = false;
        } else {
            rem = rem - l;
            k = k - 1;
        }
    }
    if fits && rem == 0 {
        let mut out: Vec<char> = Vec::new();
        let start = k;
        while k < all.len()
            invariant
                start <= k <= all@.len(),
                out@ == all@.subrange(start as int, k as int),
            decreases all@.len() - k,
        {
            out.push(all[k]);
            assert(all@.subrange(start as int, k as int + 1) =~= all@.subrange(start as int, k as int).push(all@[k as int]));
            k = k + 1;
        }
        assert(out@ =~= all@.skip(start as int));
        out
    } else {
        all
    }
}

} // verus!
