use vstd::prelude::*;
use crate::input::{
    Binding, KeyCode, KeyEvent, KeymapResult, Keymaps, binds_exactly, has_exact, has_longer, resolves, first_exact,
};
use crate::selection::Mode;

verus! {

/// What the editor is to do for a key press, in order.
#[derive(Debug, PartialEq, Eq)]
pub enum Action {
    /// Run a command with a repeat count and a register.
    Execute { command: usize, count: Option<usize>, register: Option<char> },
    /// Type a character at the cursor.
    InsertChar(char),
    /// Hand the key to the one-shot handler that was waiting for it.
    OnNextKey { handler: usize, key: KeyEvent },
    /// Close the completion overlay.
    ClearCompletion,
    /// Show what the keys of the sequence in progress can go on to.
    ShowPending,
}

/// What the completion overlay did with a key press offered to it.
#[derive(Clone, Copy, Debug, PartialEq, Eq, Structural)]
pub enum CompletionOutcome {
    /// No overlay is open.
    Inactive,
    /// The overlay let the key through.
    Ignored,
    /// The overlay took the key.
    Consumed,
    /// The overlay took the key and asks to be closed.
    ConsumedAndClosed,
}

/// The count after typing digit `d`: the first digit starts it (a leading
/// zero starts nothing), each further digit shifts it one decimal place;
/// it stops growing at the largest `usize`.
pub open spec fn count_after_digit(c: Option<usize>, d: usize) -> Option<usize> {
    match c {
        None => if d == 0 { None } else { Some(d) },
        Some(n) => Some(if n * 10 + d > usize::MAX { usize::MAX } else { (n * 10 + d) as usize }),
    }
}

/// Each command run with the same count and register, in order.
pub open spec fn execs(cs: Seq<usize>, count: Option<usize>, register: Option<char>) -> Seq<Action> {
    Seq::new(cs.len(), |i: int| Action::Execute { command: cs[i], count, register })
}

/// The first binding of exactly `keys`.
pub open spec fn exact_index(bs: Seq<Binding>, keys: Seq<KeyEvent>) -> int {
    choose|i: int| first_exact(bs, keys, i)
}

/// What a key does in the insert keymap `bs` after the buffered keys
/// `pending`, and the keys buffered afterwards. A completed sequence runs
/// its commands; a begun one shows what may follow; an unbound lone key
/// types its character; a cancelled sequence is replayed key by key.
pub open spec fn insert_step(bs: Seq<Binding>, pending: Seq<KeyEvent>, key: KeyEvent) -> (Seq<Action>, Seq<KeyEvent>) {
    let keys = pending.push(key);
    if has_exact(bs, keys) {
        (execs(bs[exact_index(bs, keys)].commands@, None, None), seq![])
    } else if has_longer(bs, keys) {
        (seq![Action::ShowPending], keys)
    } else if pending.len() > 0 {
        replay_cancelled(bs, keys, 0, seq![])
    } else {
        (match key.char_spec() {
            Some(c) => seq![Action::InsertChar(c)],
            None => seq![],
        }, seq![])
    }
}

/// The keys of a cancelled sequence from the `i`-th on, replayed in
/// order with `pending` buffered: a key that types a character types it;
/// any other is resolved again and runs its command when that alone is
/// bound to it.
pub open spec fn replay_cancelled(bs: Seq<Binding>, ks: Seq<KeyEvent>, i: int, pending: Seq<KeyEvent>) -> (Seq<Action>, Seq<KeyEvent>)
    decreases ks.len() - i,
{
    if i < 0 || i >= ks.len() {
        (seq![], pending)
    } else {
        let (a0, p0) = match ks[i].char_spec() {
            Some(c) => (seq![Action::InsertChar(c)], pending),
            None => {
                let keys = pending.push(ks[i]);
                if has_exact(bs, keys) {
                    let j = exact_index(bs, keys);
                    (if bs[j].commands@.len() == 1 {
                        seq![Action::Execute { command: bs[j].commands@[0], count: None, register: None }]
                    } else {
                        seq![]
                    }, seq![])
                } else if has_longer(bs, keys) {
                    (seq![], keys)
                } else {
                    (seq![], seq![])
                }
            },
        };
        let (a, p) = replay_cancelled(bs, ks, i + 1, p0);
        (a0 + a, p)
    }
}

/// The keys from the `i`-th on typed in insert mode one after another,
/// starting with `pending` buffered.
pub open spec fn replay_keys(bs: Seq<Binding>, pending: Seq<KeyEvent>, ks: Seq<KeyEvent>, i: int) -> (Seq<Action>, Seq<KeyEvent>)
    decreases ks.len() - i,
{
    if i < 0 || i >= ks.len() {
        (seq![], pending)
    } else {
        let (a0, p0) = insert_step(bs, pending, ks[i]);
        let (a, p) = replay_keys(bs, p0, ks, i + 1);
        (a0 + a, p)
    }
}

proof fn lemma_first_exact_unique(bs: Seq<Binding>, keys: Seq<KeyEvent>, i: int)
    requires
        first_exact(bs, keys, i),
    ensures
        exact_index(bs, keys) == i,
{
    let j = exact_index(bs, keys);
    assert(first_exact(bs, keys, j));
    if j < i {
        assert(!binds_exactly(bs, j, keys));
    }
    if i < j {
        assert(!binds_exactly(bs, i, keys));
    }
}

/// The key that repeats the last insert: an unmodified '.'.
pub open spec fn is_repeat_key(k: KeyEvent) -> bool {
    k.code == KeyCode::Char('.') && k.modifiers == 0
}

/// The input session of the editor view: its keymaps, the repeat count and
/// register being typed, what the last insert was, the one-shot handler
/// waiting for a key, and whether a completion overlay is open.
pub struct EditorView {
    pub keymaps: Keymaps,
    pub on_next_key: Option<usize>,
    pub last_insert: (usize, Vec<KeyEvent>),
    pub completion: bool,
    pub count: Option<usize>,
    pub selected_register: Option<char>,
    /// The single command that the last key press ran in a command mode.
    pub last_matched: Option<usize>,
}

impl EditorView {
    /// A session with the given keymaps; `normal_mode` is the command that a
    /// repeat runs before any insert was recorded.
    pub fn new(keymaps: Keymaps, normal_mode: usize) -> (r: EditorView)
        ensures
            r.keymaps == keymaps,
            r.on_next_key.is_none(),
            r.last_insert.0 == normal_mode,
            r.last_insert.1@.len() == 0,
            !r.completion,
            r.count.is_none(),
            r.selected_register.is_none(),
    {
        EditorView {
            keymaps,
            on_next_key: None,
            last_insert: (normal_mode, Vec::new()),
            completion: false,
            count: None,
            selected_register: None,
            last_matched: None,
        }
    }

    /// Shows a completion result of `item_count` items. An empty result
    /// installs nothing: the overlay stays as it was.
    pub fn set_completion(&mut self, item_count: usize)
        ensures
            final(self).completion == (old(self).completion || item_count > 0),
            final(self).keymaps == old(self).keymaps,
            final(self).count == old(self).count,
            final(self).on_next_key == old(self).on_next_key,
    {
        if item_count > 0 {
            self.completion = true;
        }
    }

    /// Closes the completion overlay.
    pub fn clear_completion(&mut self)
        ensures
            !final(self).completion,
            final(self).keymaps == old(self).keymaps,
            final(self).count == old(self).count,
            final(self).on_next_key == old(self).on_next_key,
    {
        self.completion = false;
    }

    /// Whether a key press in `mode` is to be offered to the completion
    /// overlay first: in insert mode, with the overlay open and no handler
    /// waiting for the key.
    pub fn offers_to_completion(&self, mode: Mode) -> (r: bool)
        ensures
            r == (mode == Mode::Insert && self.completion && self.on_next_key.is_none()),
    {
        match mode {
            Mode::Insert => self.completion && self.on_next_key.is_none(),
            _ => false,
        }
    }

    /// Registers a handler for the next key press.
    pub fn set_on_next_key(&mut self, handler: usize)
        ensures
            final(self).on_next_key == Some(handler),
            final(self).keymaps == old(self).keymaps,
            final(self).count == old(self).count,
    {
        self.on_next_key = Some(handler);
    }

    /// Resolves a key in the insert keymap and appends what it asks for:
    /// the bound commands, the typed character of an unbound key, and for
    /// a cancelled sequence each of its keys again, typed when it is a
    /// character and run when it alone is bound to a command.
    fn insert_mode(&mut self, key: KeyEvent, acts: &mut Vec<Action>)
        ensures
            final(self).keymaps.normal@ == old(self).keymaps.normal@,
            final(self).keymaps.insert@ == old(self).keymaps.insert@,
            final(self).keymaps.select@ == old(self).keymaps.select@,
            final(self).count == old(self).count,
            final(self).on_next_key == old(self).on_next_key,
            final(self).last_insert == old(self).last_insert,
            final(self).completion == old(self).completion,
            final(self).selected_register == old(self).selected_register,
            final(self).last_matched == old(self).last_matched,
            final(acts)@.len() >= old(acts)@.len(),
            forall|j: int| 0 <= j < old(acts)@.len() ==> #[trigger] final(acts)@[j] == old(acts)@[j],
            final(acts)@ == old(acts)@ + insert_step(old(self).keymaps.insert@, old(self).keymaps.pending@, key).0,
            final(self).keymaps.pending@ == insert_step(old(self).keymaps.insert@, old(self).keymaps.pending@, key).1,
            ({
                let keys = old(self).keymaps.pending@.push(key);
                let bs = old(self).keymaps.insert@;
                !has_exact(bs, keys) && !has_longer(bs, keys) && old(self).keymaps.pending@.len() == 0 ==>
                    final(acts)@ == old(acts)@ + match key.char_spec() {
                        Some(c) => seq![Action::InsertChar(c)],
                        None => seq![],
                    }
            }),
            ({
                let keys = old(self).keymaps.pending@.push(key);
                let bs = old(self).keymaps.insert@;
                !has_exact(bs, keys) && has_longer(bs, keys) ==> final(acts)@ == old(acts)@.push(Action::ShowPending)
                    && final(self).keymaps.pending@ == keys
            }),
            ({
                let keys = old(self).keymaps.pending@.push(key);
                let bs = old(self).keymaps.insert@;
                forall|i: int| first_exact(bs, keys, i) && bs[i].commands@.len() == 1 ==> final(acts)@ == old(acts)@.push(
                    Action::Execute { command: bs[i].commands@[0], count: None, register: None })
            }),
    {
        let ghost bs = old(self).keymaps.insert@;
        let ghost keys = old(self).keymaps.pending@.push(key);
        let r = self.keymaps.get(Mode::Insert, key);
        proof {
            if has_exact(bs, keys) {
                let i = choose|i: int| first_exact(bs, keys, i) && (
                    if bs[i].commands@.len() == 1 { r == KeymapResult::Matched(bs[i].commands@[0]) }
                    else { r matches KeymapResult::MatchedSequence(cs) && cs@ == bs[i].commands@ });
                lemma_first_exact_unique(bs, keys, i);
                if bs[i].commands@.len() == 1 {
                    assert(execs(bs[i].commands@, None, None) =~= seq![
                        Action::Execute { command: bs[i].commands@[0], count: None, register: None }]);
                }
            }
        }
        proof {
            let keys = old(self).keymaps.pending@.push(key);
            let bs = old(self).keymaps.insert@;
            assert forall|i: int, j: int| first_exact(bs, keys, i) && first_exact(bs, keys, j) implies i == j by {
                if i < j {
                    assert(!crate::input::binds_exactly(bs, i, keys));
                }
                if j < i {
                    assert(!crate::input::binds_exactly(bs, j, keys));
                }
            }
        }
        match r {
            KeymapResult::Matched(c) => {
                acts.push(Action::Execute { command: c, count: None, register: None });
                assert(acts@ =~= old(acts)@ + seq![Action::Execute { command: c, count: None, register: None }]);
            },
            KeymapResult::MatchedSequence(cs) => {
                let mut i: usize = 0;
                assert(execs(cs@.take(0), None, None) =~= Seq::<Action>::empty());
                assert(old(acts)@ =~= old(acts)@ + Seq::<Action>::empty());
                while i < cs.len()
                    invariant
                        i <= cs@.len(),
                        acts@ == old(acts)@ + execs(cs@.take(i as int), None, None),
                    decreases cs@.len() - i,
                {
                    acts.push(Action::Execute { command: cs[i], count: None, register: None });
                    assert(execs(cs@.take(i as int + 1), None, None) =~= execs(cs@.take(i as int), None, None).push(
                        Action::Execute { command: cs@[i as int], count: None, register: None }));
                    i = i + 1;
                }
                assert(cs@.take(i as int) =~= cs@);
            },
            KeymapResult::Pending => {
                acts.push(Action::ShowPending);
                assert(acts@ =~= old(acts)@ + seq![Action::ShowPending]);
            },
            KeymapResult::NotFound => {
                match key.char() {
                    Some(ch) => {
                        acts.push(Action::InsertChar(ch));
                        assert(acts@ =~= old(acts)@ + seq![Action::InsertChar(ch)]);
                    },
                    None => {
                        assert(acts@ =~= old(acts)@ + Seq::<Action>::empty());
                    },
                }
            },
            KeymapResult::Cancelled(pending) => {
                let mut i: usize = 0;
                let ghost target = replay_cancelled(bs, pending@, 0, seq![]);
                assert(pending@ == keys);
                assert(self.keymaps.pending@ =~= Seq::<KeyEvent>::empty());
                assert(old(acts)@ =~= old(acts)@ + Seq::<Action>::empty());
                while i < pending.len()
                    invariant
                        i <= pending@.len(),
                        bs == old(self).keymaps.insert@,
                        acts@ + replay_cancelled(bs, pending@, i as int, self.keymaps.pending@).0 == old(acts)@ + target.0,
                        replay_cancelled(bs, pending@, i as int, self.keymaps.pending@).1 == target.1,
                        self.keymaps.normal@ == old(self).keymaps.normal@,
                        self.keymaps.insert@ == old(self).keymaps.insert@,
                        self.keymaps.select@ == old(self).keymaps.select@,
                        self.count == old(self).count,
                        self.on_next_key == old(self).on_next_key,
                        self.last_insert == old(self).last_insert,
                        self.completion == old(self).completion,
                        self.selected_register == old(self).selected_register,
                        self.last_matched == old(self).last_matched,
                        acts@.len() >= old(acts)@.len(),
                        forall|j: int| 0 <= j < old(acts)@.len() ==> #[trigger] acts@[j] == old(acts)@[j],
                    decreases pending@.len() - i,
                {
                    let ev = pending[i];
                    assert(ev == pending@[i as int]);
                    let ghost before = acts@;
                    let ghost pend = self.keymaps.pending@;
                    let ghost tail = replay_cancelled(bs, pending@, i as int + 1, pend);
                    match ev.char() {
                        Some(ch) => {
                            acts.push(Action::InsertChar(ch));
                            assert(acts@ + tail.0 =~= before + (seq![Action::InsertChar(ch)] + tail.0));
                        },
                        None => {
                            let r2 = self.keymaps.get(Mode::Insert, ev);
                            proof {
                                let k2 = pend.push(ev);
                                if has_exact(bs, k2) {
                                    let j = choose|j: int| first_exact(bs, k2, j) && (
                                        if bs[j].commands@.len() == 1 { r2 == KeymapResult::Matched(bs[j].commands@[0]) }
                                        else { r2 matches KeymapResult::MatchedSequence(cs) && cs@ == bs[j].commands@ });
                                    lemma_first_exact_unique(bs, k2, j);
                                }
                                if has_exact(bs, k2) || !has_longer(bs, k2) {
                                    assert(self.keymaps.pending@ =~= Seq::<KeyEvent>::empty());
                                }
                            }
                            match r2 {
                                KeymapResult::Matched(c) => {
                                    acts.push(Action::Execute { command: c, count: None, register: None });
                                    assert(acts@ + replay_cancelled(bs, pending@, i as int + 1, self.keymaps.pending@).0
                                        =~= before + (seq![Action::Execute { command: c, count: None, register: None }]
                                        + replay_cancelled(bs, pending@, i as int + 1, self.keymaps.pending@).0));
                                },
                                _ => {
                                    assert(acts@ + replay_cancelled(bs, pending@, i as int + 1, self.keymaps.pending@).0
                                        =~= before + (Seq::<Action>::empty()
                                        + replay_cancelled(bs, pending@, i as int + 1, self.keymaps.pending@).0));
                                },
                            }
                        },
                    }
                    i = i + 1;
                }
                assert(acts@ =~= acts@ + Seq::<Action>::empty());
            },
        }
    }

    /// A key in normal or select mode. A digit adds to the count. The
    /// repeat key, when no sequence is in progress, runs the command that
    /// began the last insert and types its keys again. Any other key takes
    /// the count and the register and resolves in the mode's keymap; the
    /// count is dropped once no sequence is in progress.
    fn command_mode(&mut self, mode: Mode, key: KeyEvent, acts: &mut Vec<Action>)
        ensures
            final(self).keymaps.normal@ == old(self).keymaps.normal@,
            final(self).keymaps.insert@ == old(self).keymaps.insert@,
            final(self).keymaps.select@ == old(self).keymaps.select@,
            final(self).on_next_key == old(self).on_next_key,
            final(self).completion == old(self).completion,
            final(self).last_insert == old(self).last_insert,
            key.digit_spec() is Some ==> final(self).count == count_after_digit(old(self).count, key.digit_spec().unwrap())
                && final(acts)@ == old(acts)@ && final(self).keymaps.pending@ == old(self).keymaps.pending@
                && final(self).selected_register == old(self).selected_register,
            key.digit_spec() is None && is_repeat_key(key) && old(self).keymaps.pending@.len() == 0 ==> ({
                let replay = replay_keys(old(self).keymaps.insert@, old(self).keymaps.pending@, old(self).last_insert.1@, 0);
                &&& final(self).count == old(self).count
                &&& final(self).selected_register == old(self).selected_register
                &&& final(acts)@ == old(acts)@.push(Action::Execute { command: old(self).last_insert.0, count: None, register: None })
                    + replay.0
                &&& final(self).keymaps.pending@ == replay.1
            }),
            key.digit_spec() is None && !(is_repeat_key(key) && old(self).keymaps.pending@.len() == 0) ==> {
                &&& final(self).selected_register.is_none()
                &&& final(self).count == if final(self).keymaps.pending@.len() == 0 { None } else { old(self).count }
                &&& forall|i: int| old(acts)@.len() <= i < final(acts)@.len() && (#[trigger] final(acts)@[i]) is Execute ==>
                    final(acts)@[i]->Execute_count == old(self).count && final(acts)@[i]->Execute_register == old(self).selected_register
                &&& exists|r: KeymapResult| resolves(old(self).keymaps.of_mode(mode), old(self).keymaps.pending@, key, r, final(self).keymaps.pending@)
                    && (r matches KeymapResult::Matched(c) ==> final(acts)@ == old(acts)@.push(
                        Action::Execute { command: c, count: old(self).count, register: old(self).selected_register })
                        && final(self).last_matched == Some(c))
                    && (r matches KeymapResult::MatchedSequence(cs) ==> final(acts)@ == old(acts)@
                        + execs(cs@, old(self).count, old(self).selected_register))
                    && (r is Pending ==> final(acts)@ == old(acts)@.push(Action::ShowPending))
                    && (r is NotFound || r is Cancelled ==> final(acts)@ == old(acts)@)
            },
    {
        match key.digit() {
            Some(d) => {
                self.count = match self.count {
                    None => if d == 0 { None } else { Some(d) },
                    Some(n) => Some(if n <= (usize::MAX - d) / 10 { n * 10 + d } else { usize::MAX }),
                };
                return;
            },
            None => {},
        }
        let repeat = match key.code {
            KeyCode::Char(c) => c == '.' && key.modifiers == 0,
            _ => false,
        };
        if repeat && self.keymaps.pending().len() == 0 {
            acts.push(Action::Execute { command: self.last_insert.0, count: None, register: None });
            let keys = self.last_insert.1.clone();
            let ghost bs = old(self).keymaps.insert@;
            let ghost head = acts@;
            let ghost target = replay_keys(bs, old(self).keymaps.pending@, old(self).last_insert.1@, 0);
            assert(keys@ == old(self).last_insert.1@);
            assert(acts@ =~= acts@ + Seq::<Action>::empty());
            let mut i: usize = 0;
            while i < keys.len()
                invariant
                    i <= keys@.len(),
                    bs == old(self).keymaps.insert@,
                    keys@ == old(self).last_insert.1@,
                    head == old(acts)@.push(Action::Execute { command: old(self).last_insert.0, count: None, register: None }),
                    acts@ + replay_keys(bs, self.keymaps.pending@, keys@, i as int).0 == head + target.0,
                    replay_keys(bs, self.keymaps.pending@, keys@, i as int).1 == target.1,
                    self.selected_register == old(self).selected_register,
                    self.keymaps.normal@ == old(self).keymaps.normal@,
                    self.keymaps.insert@ == old(self).keymaps.insert@,
                    self.keymaps.select@ == old(self).keymaps.select@,
                    self.on_next_key == old(self).on_next_key,
                    self.completion == old(self).completion,
                    self.last_insert == old(self).last_insert,
                    self.count == old(self).count,
                decreases keys@.len() - i,
            {
                let ghost before = acts@;
                let ghost pend = self.keymaps.pending@;
                self.insert_mode(keys[i], acts);
                proof {
                    let step = insert_step(bs, pend, keys@[i as int]);
                    let rest = replay_keys(bs, step.1, keys@, i as int + 1);
                    assert(replay_keys(bs, pend, keys@, i as int).0 == step.0 + rest.0);
                    assert(acts@ + rest.0 =~= before + (step.0 + rest.0));
                }
                i = i + 1;
            }
            assert(acts@ =~= acts@ + Seq::<Action>::empty());
            return;
        }
        let count = self.count;
        let register = self.selected_register;
        self.selected_register = None;
        let r = self.keymaps.get(mode, key);
        let ghost rr = r;
        match r {
            KeymapResult::Matched(c) => {
                acts.push(Action::Execute { command: c, count, register });
                self.last_matched = Some(c);
            },
            KeymapResult::MatchedSequence(cs) => {
                let mut i: usize = 0;
                while i < cs.len()
                    invariant
                        i <= cs@.len(),
                        acts@ == old(acts)@ + execs(cs@.take(i as int), count, register),
                    decreases cs@.len() - i,
                {
                    acts.push(Action::Execute { command: cs[i], count, register });
                    assert(execs(cs@.take(i as int + 1), count, register) =~= execs(cs@.take(i as int), count, register).push(
                        Action::Execute { command: cs@[i as int], count, register }));
                    i = i + 1;
                }
                assert(cs@.take(i as int) =~= cs@);
            },
            KeymapResult::Pending => {
                acts.push(Action::ShowPending);
            },
            _ => {},
        }
        if self.keymaps.pending().len() == 0 {
            self.count = None;
        }
        assert(resolves(old(self).keymaps.of_mode(mode), old(self).keymaps.pending@, key, rr, self.keymaps.pending@));
    }

    /// Handles one key press in a mode and returns what the editor is to
    /// do. A handler waiting for a key takes it, and nothing else happens.
    /// In insert mode the key is recorded for repeats and offered to the
    /// completion overlay first, as `completion` tells; only a key that the
    /// overlay let through (or with no overlay open) resolves in the insert
    /// keymap. In the other modes see the count, repeat and keymap rules.
    pub fn handle_key(&mut self, key: KeyEvent, mode: Mode, completion: CompletionOutcome) -> (r: Vec<Action>)
        ensures
            final(self).keymaps.normal@ == old(self).keymaps.normal@,
            final(self).keymaps.insert@ == old(self).keymaps.insert@,
            final(self).keymaps.select@ == old(self).keymaps.select@,
            old(self).on_next_key matches Some(h) ==> r@ == seq![Action::OnNextKey { handler: h, key }]
                && final(self).on_next_key.is_none()
                && final(self).count == old(self).count
                && final(self).keymaps.pending@ == old(self).keymaps.pending@
                && final(self).last_insert == old(self).last_insert,
            old(self).on_next_key.is_none() ==> final(self).on_next_key.is_none(),
            old(self).on_next_key.is_none() && mode == Mode::Insert ==> {
                &&& final(self).last_insert.0 == old(self).last_insert.0
                &&& final(self).last_insert.1@ == old(self).last_insert.1@.push(key)
                &&& final(self).count == old(self).count
                &&& completion == CompletionOutcome::Consumed ==> r@.len() == 0
                &&& completion == CompletionOutcome::ConsumedAndClosed ==> r@ == seq![Action::ClearCompletion] && !final(self).completion
                &&& (completion == CompletionOutcome::Inactive || completion == CompletionOutcome::Ignored) ==> ({
                    let keys = old(self).keymaps.pending@.push(key);
                    let bs = old(self).keymaps.insert@;
                    !has_exact(bs, keys) && !has_longer(bs, keys) && old(self).keymaps.pending@.len() == 0 ==>
                        r@ == match key.char_spec() {
                            Some(c) => seq![Action::InsertChar(c)],
                            None => seq![],
                        }
                })
                &&& (completion == CompletionOutcome::Inactive || completion == CompletionOutcome::Ignored) ==> ({
                    let keys = old(self).keymaps.pending@.push(key);
                    let bs = old(self).keymaps.insert@;
                    forall|i: int| first_exact(bs, keys, i) && bs[i].commands@.len() == 1 ==> r@ == seq![
                        Action::Execute { command: bs[i].commands@[0], count: None, register: None }]
                })
            },
            old(self).on_next_key.is_none() && mode != Mode::Insert && key.digit_spec() is None
                && is_repeat_key(key) && old(self).keymaps.pending@.len() == 0 ==> ({
                let replay = replay_keys(old(self).keymaps.insert@, old(self).keymaps.pending@, old(self).last_insert.1@, 0);
                &&& final(self).count == old(self).count
                &&& final(self).selected_register == old(self).selected_register
                &&& r@ == seq![Action::Execute { command: old(self).last_insert.0, count: None, register: None }] + replay.0
                &&& final(self).keymaps.pending@ == replay.1
            }),
            old(self).on_next_key.is_none() && mode == Mode::Insert
                && (completion == CompletionOutcome::Inactive || completion == CompletionOutcome::Ignored) ==>
                r@ == insert_step(old(self).keymaps.insert@, old(self).keymaps.pending@, key).0
                && final(self).keymaps.pending@ == insert_step(old(self).keymaps.insert@, old(self).keymaps.pending@, key).1,
            old(self).on_next_key.is_none() && mode != Mode::Insert && key.digit_spec() is Some ==>
                r@.len() == 0 && final(self).count == count_after_digit(old(self).count, key.digit_spec().unwrap())
                && final(self).selected_register == old(self).selected_register,
            old(self).on_next_key.is_none() && mode != Mode::Insert && key.digit_spec() is None
                && !(is_repeat_key(key) && old(self).keymaps.pending@.len() == 0) ==> {
                &&& final(self).count == if final(self).keymaps.pending@.len() == 0 { None } else { old(self).count }
                &&& forall|i: int| 0 <= i < r@.len() && (#[trigger] r@[i]) is Execute ==> r@[i]->Execute_count == old(self).count
                &&& final(self).selected_register.is_none()
                &&& exists|res: KeymapResult| resolves(old(self).keymaps.of_mode(mode), old(self).keymaps.pending@, key, res, final(self).keymaps.pending@)
                    && (res matches KeymapResult::Matched(c) ==> r@ == seq![
                        Action::Execute { command: c, count: old(self).count, register: old(self).selected_register }]
                        && final(self).last_matched == Some(c))
                    && (res matches KeymapResult::MatchedSequence(cs) ==> r@ == execs(cs@, old(self).count, old(self).selected_register))
                    && (res is Pending ==> r@ == seq![Action::ShowPending])
                    && (res is NotFound || res is Cancelled ==> r@.len() == 0)
            },
    {
        let mut acts: Vec<Action> = Vec::new();
        self.last_matched = None;
        match self.on_next_key {
            Some(h) => {
                self.on_next_key = None;
                acts.push(Action::OnNextKey { handler: h, key });
                assert(acts@ =~= seq![Action::OnNextKey { handler: h, key }]);
                return acts;
            },
            None => {},
        }
        match mode {
            Mode::Insert => {
                self.last_insert.1.push(key);
                match completion {
                    CompletionOutcome::Consumed => {},
                    CompletionOutcome::ConsumedAndClosed => {
                        self.completion = false;
                        acts.push(Action::ClearCompletion);
                        assert(acts@ =~= seq![Action::ClearCompletion]);
                    },
                    _ => {
                        self.insert_mode(key, &mut acts);
                        assert(acts@ =~= seq![] + acts@);
                    },
                }
            },
            _ => {
                self.command_mode(mode, key, &mut acts);
                assert(acts@ =~= seq![] + acts@);
            },
        }
        acts
    }

    /// Bookkeeping after the editor has carried out a key's actions and the
    /// mode went from `before` to `after`. Entering insert mode from normal
    /// mode records the command that did it (the single command the key
    /// ran) and clears the recorded keys; leaving insert mode for normal
    /// mode closes the completion overlay. Returns whether it closed it.
    pub fn finish_event(&mut self, before: Mode, after: Mode) -> (closed: bool)
        ensures
            before == Mode::Normal && after == Mode::Insert ==> final(self).last_insert.1@.len() == 0
                && final(self).last_insert.0 == match old(self).last_matched {
                    Some(c) => c,
                    None => old(self).last_insert.0,
                },
            before == Mode::Insert && after == Mode::Normal ==> !final(self).completion && closed == old(self).completion,
            !(before == Mode::Normal && after == Mode::Insert) ==> final(self).last_insert == old(self).last_insert,
            !(before == Mode::Insert && after == Mode::Normal) ==> final(self).completion == old(self).completion && !closed,
            final(self).keymaps == old(self).keymaps,
            final(self).count == old(self).count,
            final(self).on_next_key == old(self).on_next_key,
    {
        match (before, after) {
            (Mode::Normal, Mode::Insert) => {
                match self.last_matched {
                    Some(c) => {
                        self.last_insert.0 = c;
                    },
                    None => {},
                }
                self.last_insert.1 = Vec::new();
                false
            },
            (Mode::Insert, Mode::Normal) => {
                let was = self.completion;
                self.completion = false;
                was
            },
            _ => false,
        }
    }
}

} // verus!
