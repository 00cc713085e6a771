//! Nesting depth of each event, from a replay through a stack of open calls.
//!
//! A `Start` is shown at the number of calls open before it and then opens a
//! frame; an `End` closes the topmost frame, whatever its name, and is shown
//! at the number of calls still open. An `End` with no open frame closes
//! nothing.

use vstd::prelude::*;
use crate::event::{events_view, kinds_of, Event, EventKind, EventView};

verus! {

/// The positions of the `Start` events still open after the kinds `ks`,
/// innermost last.
pub open spec fn open_frames(ks: Seq<EventKind>) -> Seq<int>
    decreases ks.len(),
{
    if ks.len() == 0 {
        Seq::empty()
    } else {
        let f = open_frames(ks.drop_last());
        match ks.last() {
            EventKind::Start => f.push(ks.len() - 1),
            EventKind::End => if f.len() == 0 {
                f
            } else {
                f.drop_last()
            },
        }
    }
}

/// The depth at which event `i` of a log with kinds `ks` is shown: for a
/// `Start` the number of calls open before it, for an `End` the number still
/// open after it.
pub open spec fn depth_at(ks: Seq<EventKind>, i: int) -> nat {
    match ks[i] {
        EventKind::Start => open_frames(ks.take(i)).len(),
        EventKind::End => open_frames(ks.take(i + 1)).len(),
    }
}

/// An event with the depth at which it is shown.
#[derive(Debug)]
pub struct RenderedLine {
    pub depth: usize,
    pub event: Event,
}

/// The mathematical value of a [`RenderedLine`].
pub ghost struct RenderedLineView {
    pub depth: nat,
    pub event: EventView,
}

impl View for RenderedLine {
    type V = RenderedLineView;

    open spec fn view(&self) -> RenderedLineView {
        RenderedLineView { depth: self.depth as nat, event: self.event@ }
    }
}

/// The views of a sequence of rendered lines.
pub open spec fn lines_view(v: Seq<RenderedLine>) -> Seq<RenderedLineView> {
    v.map_values(|l: RenderedLine| l@)
}

/// Each event of `evs`, in order, with its depth.
pub open spec fn depth_lines(evs: Seq<EventView>) -> Seq<RenderedLineView> {
    Seq::new(
        evs.len(),
        |i: int| RenderedLineView { depth: depth_at(kinds_of(evs), i), event: evs[i] },
    )
}

/// Taking one more event pushes or pops one frame, as its kind says.
proof fn lemma_frames_step(ks: Seq<EventKind>, i: int)
    requires
        0 <= i < ks.len(),
    ensures
        ks.take(i + 1).drop_last() == ks.take(i),
        ks.take(i + 1).last() == ks[i],
        open_frames(ks.take(i + 1)) == ({
            let f = open_frames(ks.take(i));
            match ks[i] {
                EventKind::Start => f.push(i),
                EventKind::End => if f.len() == 0 {
                    f
                } else {
                    f.drop_last()
                },
            }
        }),
{
    assert(ks.take(i + 1).drop_last() == ks.take(i));
}

/// Pairs each event with its nesting depth, keeping the order of `events`.
pub fn track_depths(events: Vec<Event>) -> (r: Vec<RenderedLine>)
    ensures
        lines_view(r@) == depth_lines(events_view(events@)),
{
    let ghost evs = events_view(events@);
    let ghost ks = kinds_of(evs);
    let mut stack: Vec<usize> = Vec::new();
    let mut out: Vec<RenderedLine> = Vec::new();
    let n = events.len();
    let mut i: usize = 0;
    for e in it: events
        invariant
            it.seq() == events@,
            n == events@.len(),
            evs == events_view(events@),
            ks == kinds_of(evs),
            i == it.index(),
            stack@.map_values(|x: usize| x as int) == open_frames(ks.take(i as int)),
            lines_view(out@) == depth_lines(evs).take(i as int),
    {
        proof {
            lemma_frames_step(ks, i as int);
        }
        assert(e@ == evs[i as int] && ks[i as int] == e.kind);
        let ghost before = stack@.map_values(|x: usize| x as int);
        let depth: usize;
        match e.kind {
            EventKind::Start => {
                depth = stack.len();
                stack.push(i);
                assert(stack@.map_values(|x: usize| x as int) == before.push(i as int));
            },
            EventKind::End => {
                if stack.len() > 0 {
                    stack.pop();
                    assert(stack@.map_values(|x: usize| x as int) == before.drop_last());
                }
                depth = stack.len();
            },
        }
        let ghost done = lines_view(out@);
        let line = RenderedLine { depth, event: e };
        assert(line@ == depth_lines(evs)[i as int]);
        out.push(line);
        assert(lines_view(out@) == done.push(line@));
        assert(depth_lines(evs).take(i + 1) == depth_lines(evs).take(i as int).push(line@));
        i = i + 1;
    }
    assert(depth_lines(evs).take(n as int) == depth_lines(evs));
    out
}

/// `+1` for a `Start`, `-1` for an `End`.
pub open spec fn step(k: EventKind) -> int {
    match k {
        EventKind::Start => 1,
        EventKind::End => -1,
    }
}

/// The number of `Start`s minus the number of `End`s in `ks`.
pub open spec fn net(ks: Seq<EventKind>) -> int
    decreases ks.len(),
{
    if ks.len() == 0 {
        0
    } else {
        net(ks.drop_last()) + step(ks.last())
    }
}

/// Every prefix of `ks` has ended no more calls than it started, and the
/// whole of `ks` ends every call that it starts.
pub open spec fn well_nested(ks: Seq<EventKind>) -> bool {
    &&& forall|n: int| 0 <= n <= ks.len() ==> net(#[trigger] ks.take(n)) >= 0
    &&& net(ks) == 0
}

/// The `End` at `j` closes the call that the `Start` at `i` opens: the
/// events from `i` to `j` balance, and none of their shorter prefixes does.
pub open spec fn matching_end(ks: Seq<EventKind>, i: int, j: int) -> bool {
    &&& 0 <= i < j < ks.len()
    &&& ks[i] == EventKind::Start
    &&& ks[j] == EventKind::End
    &&& net(ks.subrange(i, j + 1)) == 0
    &&& forall|k: int| i <= k < j ==> net(#[trigger] ks.subrange(i, k + 1)) > 0
}

proof fn lemma_net_concat(a: Seq<EventKind>, b: Seq<EventKind>)
    ensures
        net(a + b) == net(a) + net(b),
    decreases b.len(),
{
    if b.len() == 0 {
        assert(a + b == a);
    } else {
        lemma_net_concat(a, b.drop_last());
        assert((a + b).drop_last() == a + b.drop_last());
    }
}

/// While no prefix has ended more calls than it started, the open frames
/// are exactly the started calls not yet ended.
proof fn lemma_frames_net(ks: Seq<EventKind>, n: int)
    requires
        0 <= n <= ks.len(),
        forall|m: int| 0 <= m <= n ==> net(#[trigger] ks.take(m)) >= 0,
    ensures
        open_frames(ks.take(n)).len() == net(ks.take(n)),
    decreases n,
{
    if n == 0 {
        assert(ks.take(0).len() == 0);
    } else {
        lemma_frames_net(ks, n - 1);
        lemma_frames_step(ks, n - 1);
        assert(net(ks.take(n)) == net(ks.take(n - 1)) + step(ks[n - 1]));
    }
}

/// In a well-nested log each `Start` is shown at the number of calls that
/// were started and not yet ended before it.
pub proof fn law_start_depth(evs: Seq<EventView>, i: int)
    requires
        well_nested(kinds_of(evs)),
        0 <= i < evs.len(),
        evs[i].kind == EventKind::Start,
    ensures
        depth_lines(evs)[i].depth == net(kinds_of(evs).take(i)),
{
    lemma_frames_net(kinds_of(evs), i);
}

/// In a well-nested log the `End` that closes a call is shown at the same
/// depth as the `Start` that opened it.
pub proof fn law_matching_end_depth(evs: Seq<EventView>, i: int, j: int)
    requires
        well_nested(kinds_of(evs)),
        matching_end(kinds_of(evs), i, j),
    ensures
        depth_lines(evs)[j].depth == depth_lines(evs)[i].depth,
{
    let ks = kinds_of(evs);
    lemma_frames_net(ks, i);
    lemma_frames_net(ks, j + 1);
    assert(ks.take(j + 1) == ks.take(i) + ks.subrange(i, j + 1));
    lemma_net_concat(ks.take(i), ks.subrange(i, j + 1));
}

/// An `End` met while no call is open is shown at depth 0.
pub proof fn law_unmatched_end(evs: Seq<EventView>, i: int)
    requires
        0 <= i < evs.len(),
        evs[i].kind == EventKind::End,
        open_frames(kinds_of(evs).take(i)).len() == 0,
    ensures
        depth_lines(evs)[i].depth == 0,
{
    lemma_frames_step(kinds_of(evs), i);
}

/// The tracked lines are the events themselves, one each, in their order.
pub proof fn law_order_kept(evs: Seq<EventView>)
    ensures
        depth_lines(evs).len() == evs.len(),
        forall|i: int| 0 <= i < evs.len() ==> #[trigger] depth_lines(evs)[i].event == evs[i],
{
}

} // verus!
