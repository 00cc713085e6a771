//! Formatting events at their depth, and the whole log-to-trace pipeline.
//!
//! A line reads `<indent>fn <name> <status> at <timestamp>`, where the indent
//! is `"> "` once per level and the status is `Started` or `Ended__` (padded
//! to the width of `Started`).

use vstd::prelude::*;
use crate::depth::{depth_at, depth_lines, track_depths, RenderedLine, RenderedLineView};
use crate::event::{kind_of_label, kinds_of, EventKind, EventView, ParseError};
use crate::parse::{
    lemma_parse_error_stays, line_fields, log_lines, parse_log, parse_prefix, parse_spec, stamp_at,
    stamps_view,
};

verus! {

/// One level of indentation.
pub open spec fn indent_unit() -> Seq<char> {
    seq!['>', ' ']
}

/// The indentation of a line at `depth`.
pub open spec fn indent(depth: nat) -> Seq<char>
    decreases depth,
{
    if depth == 0 {
        Seq::empty()
    } else {
        indent((depth - 1) as nat) + indent_unit()
    }
}

/// The status word of an event of kind `kind`.
pub open spec fn status_label(kind: EventKind) -> Seq<char> {
    match kind {
        EventKind::Start => seq!['S', 't', 'a', 'r', 't', 'e', 'd'],
        EventKind::End => seq!['E', 'n', 'd', 'e', 'd', '_', '_'],
    }
}

/// The text of one line of the trace.
pub open spec fn line_text(l: RenderedLineView) -> Seq<char> {
    indent(l.depth) + seq!['f', 'n', ' '] + l.event.name + seq![' '] + status_label(l.event.kind)
        + seq![' ', 'a', 't', ' '] + l.event.timestamp
}

/// The lines of the trace of a log, or the error of its first failing line.
pub open spec fn trace_spec(input: Seq<char>, stamps: Seq<Option<Seq<char>>>) -> Result<
    Seq<Seq<char>>,
    ParseError,
> {
    match parse_spec(input, stamps) {
        Ok(evs) => Ok(depth_lines(evs).map_values(|l: RenderedLineView| line_text(l))),
        Err(e) => Err(e),
    }
}

/// The indentation of a line at `depth`: `"> "` repeated `depth` times.
pub fn pad_line(depth: usize) -> (r: String)
    ensures
        r@ == indent(depth as nat),
{
    let mut r = String::new();
    let mut k: usize = 0;
    while k < depth
        invariant
            k <= depth,
            r@ == indent(k as nat),
        decreases depth - k,
    {
        proof {
            reveal_strlit("> ");
        }
        assert("> "@ == indent_unit());
        r.append("> ");
        k = k + 1;
    }
    r
}

/// The status word of an event of kind `kind`.
fn status_str(kind: EventKind) -> (r: &'static str)
    ensures
        r@ == status_label(kind),
{
    proof {
        reveal_strlit("Started");
        reveal_strlit("Ended__");
    }
    match kind {
        EventKind::Start => "Started",
        EventKind::End => "Ended__",
    }
}

/// The text of one line of the trace.
pub fn render_line(line: &RenderedLine) -> (r: String)
    ensures
        r@ == line_text(line@),
{
    proof {
        reveal_strlit("fn ");
        reveal_strlit(" ");
        reveal_strlit(" at ");
    }
    let mut r = pad_line(line.depth);
    r.append("fn ");
    r.append(line.event.name.as_str());
    r.append(" ");
    r.append(status_str(line.event.kind));
    r.append(" at ");
    r.append(line.event.timestamp.as_str());
    r
}

/// The text of each line, in order.
pub fn render_lines(lines: &Vec<RenderedLine>) -> (r: Vec<String>)
    ensures
        r@.len() == lines@.len(),
        forall|i: int| 0 <= i < r@.len() ==> #[trigger] r@[i]@ == line_text(lines@[i]@),
{
    let mut r: Vec<String> = Vec::new();
    let mut i: usize = 0;
    while i < lines.len()
        invariant
            i <= lines@.len(),
            r@.len() == i,
            forall|k: int| 0 <= k < i ==> #[trigger] r@[k]@ == line_text(lines@[k]@),
        decreases lines.len() - i,
    {
        r.push(render_line(&lines[i]));
        i = i + 1;
    }
    r
}

/// The trace of the log `input`, one line per event in the log's order,
/// given for each line the text that its timestamp reads as (see
/// [`parse_log`]); or the error of the first failing line, with no trace.
pub fn trace(input: &str, stamps: &Vec<Option<String>>) -> (r: Result<Vec<String>, ParseError>)
    ensures
        match r {
            Ok(out) => trace_spec(input@, stamps_view(stamps@)) == Ok::<Seq<Seq<char>>, ParseError>(
                out@.map_values(|s: String| s@),
            ),
            Err(e) => trace_spec(input@, stamps_view(stamps@)) == Err::<Seq<Seq<char>>, ParseError>(e),
        },
{
    let events = match parse_log(input, stamps) {
        Ok(evs) => evs,
        Err(e) => return Err(e),
    };
    let lines = track_depths(events);
    let out = render_lines(&lines);
    proof {
        let want = match parse_spec(input@, stamps_view(stamps@)) {
            Ok(evs) => evs,
            Err(_) => Seq::empty(),
        };
        assert(out@.map_values(|s: String| s@) == depth_lines(want).map_values(
            |l: RenderedLineView| line_text(l),
        )) by {
            assert forall|i: int| 0 <= i < out@.len() implies #[trigger] out@[i]@ == line_text(
                depth_lines(want)[i],
            ) by {
                assert(lines@[i]@ == crate::depth::lines_view(lines@)[i]);
            }
        }
    }
    Ok(out)
}

/// A log that reads gives one trace line per event, in the log's order,
/// each showing its event at that event's depth.
pub proof fn law_trace_order(input: Seq<char>, stamps: Seq<Option<Seq<char>>>)
    requires
        parse_spec(input, stamps) is Ok,
    ensures
        ({
            let evs = parse_spec(input, stamps)->Ok_0;
            let out = trace_spec(input, stamps)->Ok_0;
            &&& trace_spec(input, stamps) is Ok
            &&& out.len() == evs.len()
            &&& forall|i: int|
                0 <= i < evs.len() ==> #[trigger] out[i] == line_text(
                    RenderedLineView { depth: depth_at(kinds_of(evs), i), event: evs[i] },
                )
        }),
{
}

/// Rendering the same lines twice gives the same text: any two results
/// that meet the contract of [`render_lines`] on one input are equal.
pub proof fn law_render_twice(lines: Seq<RenderedLineView>, a: Seq<Seq<char>>, b: Seq<Seq<char>>)
    requires
        a.len() == lines.len(),
        b.len() == lines.len(),
        forall|i: int| 0 <= i < lines.len() ==> #[trigger] a[i] == line_text(lines[i]),
        forall|i: int| 0 <= i < lines.len() ==> #[trigger] b[i] == line_text(lines[i]),
    ensures
        a == b,
{
    assert(a =~= b);
}

/// A line with three fields whose timestamp does not read as a number, after
/// lines that all read, fails the whole log with `BadTimestamp`, and no
/// trace line is produced.
pub proof fn law_bad_timestamp(input: Seq<char>, stamps: Seq<Option<Seq<char>>>, i: int)
    requires
        0 <= i < log_lines(input).len(),
        parse_prefix(log_lines(input), stamps, i as nat) is Ok,
        line_fields(log_lines(input)[i]).len() == 3,
        stamp_at(stamps, i) is None,
    ensures
        trace_spec(input, stamps) == Err::<Seq<Seq<char>>, ParseError>(
            ParseError::BadTimestamp { line: i as usize },
        ),
{
    let ls = log_lines(input);
    assert(parse_prefix(ls, stamps, (i + 1) as nat) == Err::<Seq<EventView>, ParseError>(
        ParseError::BadTimestamp { line: i as usize },
    ));
    lemma_parse_error_stays(ls, stamps, (i + 1) as nat, ls.len());
}

/// A line with three fields and a timestamp whose third field is neither
/// `Start` nor `End`, after lines that all read, fails the whole log with
/// `BadEventKind`.
pub proof fn law_bad_event_kind(input: Seq<char>, stamps: Seq<Option<Seq<char>>>, i: int)
    requires
        0 <= i < log_lines(input).len(),
        parse_prefix(log_lines(input), stamps, i as nat) is Ok,
        line_fields(log_lines(input)[i]).len() == 3,
        stamp_at(stamps, i) is Some,
        kind_of_label(line_fields(log_lines(input)[i])[2]) is None,
    ensures
        trace_spec(input, stamps) == Err::<Seq<Seq<char>>, ParseError>(
            ParseError::BadEventKind { line: i as usize },
        ),
{
    let ls = log_lines(input);
    assert(parse_prefix(ls, stamps, (i + 1) as nat) == Err::<Seq<EventView>, ParseError>(
        ParseError::BadEventKind { line: i as usize },
    ));
    lemma_parse_error_stays(ls, stamps, (i + 1) as nat, ls.len());
}

} // verus!
