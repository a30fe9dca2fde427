use vstd::prelude::*;

verus! {

/// A styled character range `[start, end)` of one annotation source.
#[derive(Clone, Copy, Debug, PartialEq, Eq, Structural)]
pub struct Span {
    pub scope: usize,
    pub start: usize,
    pub end: usize,
}

/// One step of a highlight stream: a scope opens, the innermost open scope
/// closes, or a run of characters is drawn under the open scopes.
#[derive(Clone, Copy, Debug, PartialEq, Eq, Structural)]
pub enum HighlightEvent {
    HighlightStart(usize),
    HighlightEnd,
    Source { start: usize, end: usize },
}

/// An annotation source: ascending, non-overlapping spans.
pub open spec fn spans_wf(s: Seq<Span>) -> bool {
    &&& forall|i: int| 0 <= i < s.len() ==> #[trigger] s[i].start <= s[i].end
    &&& forall|i: int, j: int| 0 <= i < j < s.len() ==> #[trigger] s[i].end <= #[trigger] s[j].start
}

/// The scope of the span of `s` that holds character `x`, if any.
pub open spec fn active_at(s: Seq<Span>, x: int) -> Option<usize>
    decreases s.len(),
{
    if s.len() == 0 {
        None
    } else if s[0].start <= x < s[0].end {
        Some(s[0].scope)
    } else {
        active_at(s.drop_first(), x)
    }
}

/// The scopes over character `x`, one per source that covers it, in
/// source order: later sources are inner.
pub open spec fn active_stack(srcs: Seq<Seq<Span>>, x: int) -> Seq<usize>
    decreases srcs.len(),
{
    if srcs.len() == 0 {
        Seq::empty()
    } else {
        let rest = active_stack(srcs.drop_last(), x);
        match active_at(srcs.last(), x) {
            Some(s) => rest.push(s),
            None => rest,
        }
    }
}

/// The open scopes after a stream, innermost last.
pub open spec fn stack_of(ev: Seq<HighlightEvent>) -> Seq<usize>
    decreases ev.len(),
{
    if ev.len() == 0 {
        Seq::empty()
    } else {
        let st = stack_of(ev.drop_last());
        match ev.last() {
            HighlightEvent::HighlightStart(s) => st.push(s),
            HighlightEvent::HighlightEnd => if st.len() > 0 { st.drop_last() } else { st },
            HighlightEvent::Source { .. } => st,
        }
    }
}

/// No scope is closed that was not opened: the nesting depth never goes
/// below zero.
pub open spec fn well_nested(ev: Seq<HighlightEvent>) -> bool
    decreases ev.len(),
{
    if ev.len() == 0 {
        true
    } else {
        &&& well_nested(ev.drop_last())
        &&& (ev.last() is HighlightEnd ==> stack_of(ev.drop_last()).len() > 0)
    }
}

/// The character position reached by the runs of a stream that starts at `lo`.
pub open spec fn covered_to(ev: Seq<HighlightEvent>, lo: int) -> int
    decreases ev.len(),
{
    if ev.len() == 0 {
        lo
    } else {
        match ev.last() {
            HighlightEvent::Source { start, end } => end as int,
            _ => covered_to(ev.drop_last(), lo),
        }
    }
}

/// Each run of the stream is non-empty, starts where the previous one
/// ended (at `lo` for the first), is drawn under exactly the scopes that
/// the sources give its characters, and those scopes are the same across it.
pub open spec fn runs_follow(srcs: Seq<Seq<Span>>, ev: Seq<HighlightEvent>, lo: int) -> bool
    decreases ev.len(),
{
    if ev.len() == 0 {
        true
    } else {
        let prev = ev.drop_last();
        &&& runs_follow(srcs, prev, lo)
        &&& match ev.last() {
            HighlightEvent::Source { start, end } => {
                &&& start == covered_to(prev, lo)
                &&& start < end
                &&& stack_of(prev) == active_stack(srcs, start as int)
                &&& forall|x: int| start <= x < end ==> #[trigger] active_stack(srcs, x) == active_stack(srcs, start as int)
            },
            _ => true,
        }
    }
}

/// The sources as sequences.
pub open spec fn views_of(s: Seq<Vec<Span>>) -> Seq<Seq<Span>> {
    Seq::new(s.len(), |i: int| s[i]@)
}

/// A stream is a correct composition of `srcs` over `[lo, hi)`.
pub open spec fn merged(srcs: Seq<Seq<Span>>, ev: Seq<HighlightEvent>, lo: int, hi: int) -> bool {
    &&& well_nested(ev)
    &&& stack_of(ev).len() == 0
    &&& runs_follow(srcs, ev, lo)
    &&& covered_to(ev, lo) == hi
}

proof fn lemma_active_some(s: Seq<Span>, i: int, x: int)
    requires
        spans_wf(s),
        0 <= i < s.len(),
        s[i].start <= x < s[i].end,
    ensures
        active_at(s, x) == Some(s[i].scope),
    decreases s.len(),
{
    if i > 0 {
        assert(s[0].end <= s[i].start);
        let t = s.drop_first();
        assert(t[i - 1] == s[i]);
        assert forall|a: int, b: int| 0 <= a < b < t.len() implies #[trigger] t[a].end <= #[trigger] t[b].start by {
            assert(t[a] == s[a + 1] && t[b] == s[b + 1]);
        }
        lemma_active_some(t, i - 1, x);
    }
}

proof fn lemma_active_none(s: Seq<Span>, x: int)
    requires
        forall|i: int| 0 <= i < s.len() ==> !(#[trigger] s[i].start <= x && x < s[i].end),
    ensures
        active_at(s, x).is_none(),
    decreases s.len(),
{
    if s.len() > 0 {
        let t = s.drop_first();
        assert forall|i: int| 0 <= i < t.len() implies !(#[trigger] t[i].start <= x && x < t[i].end) by {
            assert(t[i] == s[i + 1]);
        }
        lemma_active_none(t, x);
    }
}

/// With every span before the cursor `c` ended by `p`, the span at `c`
/// decides what covers each `x` up to the next boundary after `p`.
proof fn lemma_active_at_cursor(s: Seq<Span>, c: int, p: int, x: int)
    requires
        spans_wf(s),
        0 <= c <= s.len(),
        forall|i: int| 0 <= i < c ==> #[trigger] s[i].end <= p,
        c < s.len() ==> s[c].end > p,
        p <= x,
        c < s.len() && s[c].start <= p ==> x < s[c].end,
        c < s.len() && s[c].start > p ==> x < s[c].start,
    ensures
        active_at(s, x) == active_at(s, p),
{
    if c < s.len() && s[c].start <= p {
        lemma_active_some(s, c, x);
        lemma_active_some(s, c, p);
    } else {
        assert forall|i: int| 0 <= i < s.len() implies !(#[trigger] s[i].start <= x && x < s[i].end) by {
            if i > c {
                assert(s[c].end <= s[i].start);
            }
        }
        assert forall|i: int| 0 <= i < s.len() implies !(#[trigger] s[i].start <= p && p < s[i].end) by {
            if i > c {
                assert(s[c].end <= s[i].start);
            }
        }
        lemma_active_none(s, x);
        lemma_active_none(s, p);
    }
}

proof fn lemma_stack_const(srcs: Seq<Seq<Span>>, p: int, x: int)
    requires
        forall|t: int| 0 <= t < srcs.len() ==> active_at(#[trigger] srcs[t], x) == active_at(srcs[t], p),
    ensures
        active_stack(srcs, x) == active_stack(srcs, p),
    decreases srcs.len(),
{
    if srcs.len() > 0 {
        let d = srcs.drop_last();
        assert forall|t: int| 0 <= t < d.len() implies active_at(#[trigger] d[t], x) == active_at(d[t], p) by {
            assert(d[t] == srcs[t]);
        }
        lemma_stack_const(d, p, x);
        assert(srcs.last() == srcs[srcs.len() - 1]);
    }
}

proof fn lemma_push_last(ev: Seq<HighlightEvent>, e: HighlightEvent)
    ensures
        ev.push(e).drop_last() == ev,
        ev.push(e).last() == e,
        ev.push(e).len() > 0,
{
    assert(ev.push(e).drop_last() =~= ev);
}

/// Run `j` of the stream holds character `x`.
pub open spec fn run_holds(ev: Seq<HighlightEvent>, j: int, x: int) -> bool {
    &&& 0 <= j < ev.len()
    &&& ev[j] is Source
    &&& ev[j]->Source_start <= x < ev[j]->Source_end
}

proof fn lemma_runs_bounded(srcs: Seq<Seq<Span>>, ev: Seq<HighlightEvent>, lo: int)
    requires
        runs_follow(srcs, ev, lo),
    ensures
        covered_to(ev, lo) >= lo,
        forall|j: int| 0 <= j < ev.len() && #[trigger] ev[j] is Source ==>
            lo <= ev[j]->Source_start && ev[j]->Source_end <= covered_to(ev, lo),
    decreases ev.len(),
{
    if ev.len() > 0 {
        let prev = ev.drop_last();
        lemma_runs_bounded(srcs, prev, lo);
        assert forall|j: int| 0 <= j < ev.len() && #[trigger] ev[j] is Source implies
            lo <= ev[j]->Source_start && ev[j]->Source_end <= covered_to(ev, lo) by {
            if j < ev.len() - 1 {
                assert(ev[j] == prev[j]);
            } else {
                assert(ev[j] == ev.last());
            }
        }
    }
}

/// In a correctly composed stream over `[lo, hi)`, every character of the
/// range lies in exactly one run.
pub proof fn lemma_merged_partition(srcs: Seq<Seq<Span>>, ev: Seq<HighlightEvent>, lo: int, hi: int, x: int)
    requires
        merged(srcs, ev, lo, hi),
        lo <= x < hi,
    ensures
        exists|j: int| run_holds(ev, j, x),
        forall|j1: int, j2: int| run_holds(ev, j1, x) && run_holds(ev, j2, x) ==> j1 == j2,
{
    lemma_runs_partition(srcs, ev, lo, x);
}

proof fn lemma_runs_partition(srcs: Seq<Seq<Span>>, ev: Seq<HighlightEvent>, lo: int, x: int)
    requires
        runs_follow(srcs, ev, lo),
        lo <= x < covered_to(ev, lo),
    ensures
        exists|j: int| run_holds(ev, j, x),
        forall|j1: int, j2: int| run_holds(ev, j1, x) && run_holds(ev, j2, x) ==> j1 == j2,
    decreases ev.len(),
{
    let prev = ev.drop_last();
    let n = ev.len() - 1;
    assert forall|j: int| 0 <= j < n implies ev[j] == #[trigger] prev[j] by {}
    lemma_runs_bounded(srcs, prev, lo);
    match ev.last() {
        HighlightEvent::Source { start, end } => {
            if x >= start {
                assert(run_holds(ev, n, x));
                assert forall|j1: int, j2: int| run_holds(ev, j1, x) && run_holds(ev, j2, x) implies j1 == j2 by {
                    if j1 < n {
                        assert(prev[j1] is Source);
                    }
                    if j2 < n {
                        assert(prev[j2] is Source);
                    }
                }
            } else {
                lemma_runs_partition(srcs, prev, lo, x);
                let j = choose|j: int| run_holds(prev, j, x);
                assert(run_holds(ev, j, x));
                assert forall|j1: int, j2: int| run_holds(ev, j1, x) && run_holds(ev, j2, x) implies j1 == j2 by {
                    assert(run_holds(prev, j1, x));
                    assert(run_holds(prev, j2, x));
                }
            }
        },
        _ => {
            lemma_runs_partition(srcs, prev, lo, x);
            let j = choose|j: int| run_holds(prev, j, x);
            assert(run_holds(ev, j, x));
            assert forall|j1: int, j2: int| run_holds(ev, j1, x) && run_holds(ev, j2, x) implies j1 == j2 by {
                assert(run_holds(prev, j1, x));
                assert(run_holds(prev, j2, x));
            }
        },
    }
}

/// The scopes of the open spans, each named by its source and its index there.
pub open spec fn scopes_of(srcs: Seq<Seq<Span>>, open: Seq<(usize, usize)>) -> Seq<usize> {
    Seq::new(open.len(), |i: int| srcs[open[i].0 as int][open[i].1 as int].scope)
}

/// Every entry names a span of the sources.
pub open spec fn valid_open(srcs: Seq<Seq<Span>>, open: Seq<(usize, usize)>) -> bool {
    forall|i: int| 0 <= i < open.len() ==> (#[trigger] open[i]).0 < srcs.len() && open[i].1 < srcs[open[i].0 as int].len()
}

/// Merges annotation sources into one stream over the characters
/// `[lo, hi)`. Each character falls in exactly one run, and each run is
/// drawn under the scopes of the sources that cover it, earlier sources
/// outermost; scopes are properly nested. A scope opens where its span
/// starts to cover the run and closes where it stops, except that a change
/// in an outer source closes and reopens the inner ones.
pub fn merge_highlights(sources: &Vec<Vec<Span>>, lo: usize, hi: usize) -> (r: Vec<HighlightEvent>)
    requires
        lo <= hi,
        forall|t: int| 0 <= t < sources@.len() ==> spans_wf(#[trigger] sources@[t]@),
    ensures
        merged(views_of(sources@), r@, lo as int, hi as int),
{
    let ghost sv = views_of(sources@);
    let n = sources.len();
    let mut cursors: Vec<usize> = Vec::new();
    let mut k: usize = 0;
    while k < n
        invariant
            k <= n,
            n == sources@.len(),
            cursors@.len() == k,
            forall|t: int| 0 <= t < k ==> cursors@[t] == 0,
        decreases n - k,
    {
        cursors.push(0);
        k = k + 1;
    }
    let mut out: Vec<HighlightEvent> = Vec::new();
    let mut open: Vec<(usize, usize)> = Vec::new();
    let mut p: usize = lo;
    assert(scopes_of(sv, open@) =~= stack_of(out@));
    while p < hi
        invariant
            lo <= p <= hi,
            n == sources@.len(),
            sv == views_of(sources@),
            forall|t: int| 0 <= t < n ==> spans_wf(#[trigger] sv[t]),
            cursors@.len() == n,
            forall|t: int| 0 <= t < n ==> #[trigger] cursors@[t] <= sv[t].len(),
            forall|t: int, i: int| 0 <= t < n && 0 <= i < cursors@[t] ==> #[trigger] sv[t][i].end <= p,
            well_nested(out@),
            valid_open(sv, open@),
            stack_of(out@) == scopes_of(sv, open@),
            runs_follow(sv, out@, lo as int),
            covered_to(out@, lo as int) == p,
        decreases hi - p,
    {
        let mut q: usize = hi;
        let mut t: usize = 0;
        let mut desired: Vec<(usize, usize)> = Vec::new();
        assert(scopes_of(sv, desired@) =~= active_stack(sv.take(0), p as int));
        while t < n
            invariant
                t <= n,
                lo <= p < q <= hi,
                n == sources@.len(),
                sv == views_of(sources@),
                forall|u: int| 0 <= u < n ==> spans_wf(#[trigger] sv[u]),
                cursors@.len() == n,
                forall|u: int| 0 <= u < n ==> #[trigger] cursors@[u] <= sv[u].len(),
                forall|u: int, i: int| 0 <= u < n && 0 <= i < cursors@[u] ==> #[trigger] sv[u][i].end <= p,
                forall|u: int, x: int| 0 <= u < t && p <= x < q ==> #[trigger] active_at(sv[u], x) == active_at(sv[u], p as int),
                valid_open(sv, desired@),
                scopes_of(sv, desired@) == active_stack(sv.take(t as int), p as int),
                desired@.len() <= t,
            decreases n - t,
        {
            let src = &sources[t];
            assert(src@ == sv[t as int]);
            let mut c: usize = cursors[t];
            while c < src.len() && src[c].end <= p
                invariant
                    c <= src@.len(),
                    forall|i: int| 0 <= i < c ==> #[trigger] src@[i].end <= p,
                decreases src@.len() - c,
            {
                c = c + 1;
            }
            cursors.set(t, c);
            let ghost before = desired@;
            let mut found: Option<usize> = None;
            if c < src.len() {
                let sp = src[c];
                if sp.start <= p {
                    desired.push((t, c));
                    found = Some(sp.scope);
                    if sp.end < q {
                        q = sp.end;
                    }
                } else if sp.start < q {
                    q = sp.start;
                }
            }
            proof {
                let s = sv[t as int];
                assert forall|x: int| p <= x < q implies #[trigger] active_at(sv[t as int], x) == active_at(sv[t as int], p as int) by {
                    lemma_active_at_cursor(s, c as int, p as int, x);
                }
                if c < s.len() && s[c as int].start <= p {
                    lemma_active_some(s, c as int, p as int);
                } else {
                    assert forall|i: int| 0 <= i < s.len() implies !(#[trigger] s[i].start <= p && p < s[i].end) by {
                        if i > c {
                            assert(s[c as int].end <= s[i].start);
                        }
                    }
                    lemma_active_none(s, p as int);
                }
                assert(active_at(s, p as int) == found);
                let tk = sv.take(t as int + 1);
                assert(tk.drop_last() =~= sv.take(t as int));
                assert(tk.last() == s);
                match found {
                    Some(sc) => {
                        assert(scopes_of(sv, desired@) =~= scopes_of(sv, before).push(sc));
                    },
                    None => {
                        assert(desired@ == before);
                    },
                }
            }
            t = t + 1;
        }
        proof {
            assert(sv.take(n as int) =~= sv);
            assert forall|x: int| p <= x < q implies #[trigger] active_stack(sv, x) == active_stack(sv, p as int) by {
                assert forall|u: int| 0 <= u < sv.len() implies active_at(#[trigger] sv[u], x) == active_at(sv[u], p as int) by {
                    assert(active_at(sv[u], x) == active_at(sv[u], p as int));
                }
                lemma_stack_const(sv, p as int, x);
            }
        }
        let mut keep: usize = 0;
        while keep < open.len() && keep < desired.len() && open[keep].0 == desired[keep].0 && open[keep].1 == desired[keep].1
            invariant
                keep <= open@.len(),
                keep <= desired@.len(),
                forall|i: int| 0 <= i < keep ==> open@[i] == desired@[i],
            decreases open@.len() - keep,
        {
            keep = keep + 1;
        }
        while open.len() > keep
            invariant
                keep <= open@.len(),
                forall|i: int| 0 <= i < keep ==> open@[i] == desired@[i],
                keep <= desired@.len(),
                well_nested(out@),
                valid_open(sv, open@),
                stack_of(out@) == scopes_of(sv, open@),
                runs_follow(sv, out@, lo as int),
                covered_to(out@, lo as int) == p,
            decreases open@.len(),
        {
            let ghost before = out@;
            let ghost before_open = open@;
            out.push(HighlightEvent::HighlightEnd);
            open.pop();
            proof {
                lemma_push_last(before, HighlightEvent::HighlightEnd);
                assert(scopes_of(sv, open@) =~= scopes_of(sv, before_open).drop_last());
            }
        }
        assert(open@ =~= desired@.take(keep as int));
        let mut j: usize = keep;
        while j < desired.len()
            invariant
                keep <= j <= desired@.len(),
                open@ == desired@.take(j as int),
                valid_open(sv, desired@),
                sv == views_of(sources@),
                well_nested(out@),
                stack_of(out@) == scopes_of(sv, open@),
                runs_follow(sv, out@, lo as int),
                covered_to(out@, lo as int) == p,
            decreases desired@.len() - j,
        {
            let (st, sc) = desired[j];
            let scope = sources[st][sc].scope;
            let ghost before = out@;
            out.push(HighlightEvent::HighlightStart(scope));
            open.push((st, sc));
            proof {
                lemma_push_last(before, HighlightEvent::HighlightStart(scope));
                assert(desired@.take(j as int + 1) =~= desired@.take(j as int).push(desired@[j as int]));
                assert(scopes_of(sv, open@) =~= scopes_of(sv, desired@.take(j as int)).push(scope));
            }
            j = j + 1;
        }
        assert(open@ =~= desired@);
        let ghost before = out@;
        out.push(HighlightEvent::Source { start: p, end: q });
        proof { lemma_push_last(before, HighlightEvent::Source { start: p, end: q }); }
        p = q;
    }
    while open.len() > 0
        invariant
            well_nested(out@),
            valid_open(sv, open@),
            stack_of(out@) == scopes_of(sv, open@),
            runs_follow(sv, out@, lo as int),
            covered_to(out@, lo as int) == hi,
        decreases open@.len(),
    {
        let ghost before = out@;
        let ghost before_open = open@;
        out.push(HighlightEvent::HighlightEnd);
        open.pop();
        proof {
            lemma_push_last(before, HighlightEvent::HighlightEnd);
            assert(scopes_of(sv, open@) =~= scopes_of(sv, before_open).drop_last());
        }
    }
    out
}

/// Whether spans are ascending and do not overlap; see [`spans_wf`].
pub fn spans_ordered(s: &Vec<Span>) -> (r: bool)
    ensures
        r == spans_wf(s@),
{
    let mut i: usize = 0;
    while i < s.len()
        invariant
            i <= s@.len(),
            forall|k: int| 0 <= k < i ==> #[trigger] s@[k].start <= s@[k].end,
            forall|a: int, b: int| 0 <= a < b < i ==> #[trigger] s@[a].end <= #[trigger] s@[b].start,
        decreases s@.len() - i,
    {
        if s[i].start > s[i].end {
            return false;
        }
        if i > 0 && s[i - 1].end > s[i].start {
            assert(!spans_wf(s@)) by {
                assert(s@[i - 1].end > s@[i as int].start);
            }
            return false;
        }
        proof {
            assert forall|a: int, b: int| 0 <= a < b < i + 1 implies #[trigger] s@[a].end <= #[trigger] s@[b].start by {
                if b == i && a < i - 1 {
                    assert(s@[a].end <= s@[i - 1].start);
                }
            }
        }
        i = i + 1;
    }
    true
}

} // verus!
