use rstrace::depth::{track_depths, RenderedLine};
use rstrace::event::{Event, EventKind, ParseError};
use rstrace::parse::{parse_log, timestamp_fields};
use rstrace::render::{pad_line, render_line, render_lines, trace};
use rstrace::text::{chars_of, split_chars, string_of, trim_chars};

/// Reads each line's first field as a number and back as text.
fn stamps_for(input: &str) -> Vec<Option<String>> {
    timestamp_fields(input)
        .iter()
        .map(|s| s.parse::<f64>().ok().map(|x| x.to_string()))
        .collect()
}

fn run(input: &str) -> Result<Vec<String>, ParseError> {
    trace(input, &stamps_for(input))
}

fn event(ts: &str, name: &str, kind: EventKind) -> Event {
    Event { timestamp: ts.to_string(), name: name.to_string(), kind }
}

#[test]
fn nested_calls_render_with_indent() {
    let out = run("1, main, Start\n2, A, Start\n3, A, End\n4, main, End").unwrap();
    assert_eq!(
        out,
        vec![
            "fn main Started at 1",
            "> fn A Started at 2",
            "> fn A Ended__ at 3",
            "fn main Ended__ at 4",
        ]
    );
}

#[test]
fn lone_end_renders_at_depth_zero() {
    let out = run("5, X, End").unwrap();
    assert_eq!(out, vec!["fn X Ended__ at 5"]);
}

#[test]
fn depths_of_deeper_log() {
    let input = "1, main, Start\n2, A, Start\n3, B, Start\n4, B, End\n5, A, End\n8, main, End";
    let events = parse_log(input, &stamps_for(input)).unwrap();
    let lines = track_depths(events);
    let depths: Vec<usize> = lines.iter().map(|l| l.depth).collect();
    assert_eq!(depths, vec![0, 1, 2, 2, 1, 0]);
    let names: Vec<&str> = lines.iter().map(|l| l.event.name.as_str()).collect();
    assert_eq!(names, vec!["main", "A", "B", "B", "A", "main"]);
}

#[test]
fn output_count_and_order_match_input() {
    let input = "1, a, Start\n2, b, End\n3, c, End\n4, d, Start";
    let out = run(input).unwrap();
    assert_eq!(out.len(), 4);
    assert_eq!(
        out,
        vec!["fn a Started at 1", "fn b Ended__ at 2", "fn c Ended__ at 3", "fn d Started at 4"]
    );
}

#[test]
fn rendering_twice_is_identical() {
    let input = "1, main, Start\n2, A, Start\n3, A, End\n4, main, End";
    let lines = track_depths(parse_log(input, &stamps_for(input)).unwrap());
    assert_eq!(render_lines(&lines), render_lines(&lines));
    assert_eq!(run(input).unwrap(), run(input).unwrap());
}

#[test]
fn unmatched_end_after_balanced_calls() {
    let out = run("1, f, Start\n2, f, End\n3, g, End\n4, h, Start").unwrap();
    assert_eq!(
        out,
        vec!["fn f Started at 1", "fn f Ended__ at 2", "fn g Ended__ at 3", "fn h Started at 4"]
    );
}

#[test]
fn end_pops_whatever_frame_is_on_top() {
    let out = run("1, a, Start\n2, b, Start\n3, a, End\n4, c, Start").unwrap();
    assert_eq!(
        out,
        vec![
            "fn a Started at 1",
            "> fn b Started at 2",
            "> fn a Ended__ at 3",
            "> fn c Started at 4",
        ]
    );
}

#[test]
fn non_numeric_timestamp_fails_with_no_output() {
    let r = run("1, main, Start\nabc, A, Start\n3, A, End");
    assert_eq!(r, Err(ParseError::BadTimestamp { line: 1 }));
}

#[test]
fn unknown_kind_fails() {
    assert_eq!(run("1, main, Stop"), Err(ParseError::BadEventKind { line: 0 }));
}

#[test]
fn too_few_fields_fail() {
    assert_eq!(run("1, main, Start\n2, main"), Err(ParseError::MalformedLine { line: 1 }));
}

#[test]
fn too_many_fields_fail() {
    assert_eq!(run("1, main, Start, extra"), Err(ParseError::MalformedLine { line: 0 }));
}

#[test]
fn first_failing_line_decides() {
    let r = run("x, a, Start\n1, b, Stop");
    assert_eq!(r, Err(ParseError::BadTimestamp { line: 0 }));
    let r = run("1, a, Stop\nx, b, Start");
    assert_eq!(r, Err(ParseError::BadEventKind { line: 0 }));
}

#[test]
fn field_count_is_checked_before_timestamp() {
    assert_eq!(run("x, a"), Err(ParseError::MalformedLine { line: 0 }));
}

#[test]
fn missing_timestamp_entry_is_bad_timestamp() {
    let r = parse_log("1, a, Start\n2, a, End", &vec![Some("1".to_string())]);
    assert_eq!(r.unwrap_err(), ParseError::BadTimestamp { line: 1 });
}

#[test]
fn empty_log_is_one_malformed_line() {
    assert_eq!(run(""), Err(ParseError::MalformedLine { line: 0 }));
    assert_eq!(run("  \n\t \n"), Err(ParseError::MalformedLine { line: 0 }));
}

#[test]
fn whole_input_is_trimmed_once() {
    let out = run("\n  1, main, Start\n2, main, End  \n\n").unwrap();
    assert_eq!(out, vec!["fn main Started at 1", "fn main Ended__ at 2"]);
}

#[test]
fn inner_blank_line_is_malformed() {
    assert_eq!(run("1, a, Start\n\n2, a, End"), Err(ParseError::MalformedLine { line: 1 }));
}

#[test]
fn carriage_return_stays_in_the_kind() {
    assert_eq!(
        run("1, main, Start\r\n2, main, End"),
        Err(ParseError::BadEventKind { line: 0 })
    );
}

#[test]
fn fractional_timestamps_read_back() {
    let out = run("6.62, main, Start\n7.5, main, End").unwrap();
    assert_eq!(out, vec!["fn main Started at 6.62", "fn main Ended__ at 7.5"]);
}

#[test]
fn timestamps_are_shown_in_shortest_form() {
    let out = run("1.0, main, Start\n02.50, main, End").unwrap();
    assert_eq!(out, vec!["fn main Started at 1", "fn main Ended__ at 2.5"]);
}

#[test]
fn name_is_taken_verbatim() {
    let out = run("1, my::fn<T>,x, Start").unwrap();
    assert_eq!(out, vec!["fn my::fn<T>,x Started at 1"]);
}

#[test]
fn timestamp_fields_give_first_fields() {
    let f = timestamp_fields(" 1, a, Start\nzz, b, End\nlonely ");
    assert_eq!(f, vec!["1", "zz", "lonely"]);
    assert_eq!(timestamp_fields(""), vec![""]);
}

#[test]
fn parse_log_builds_events() {
    let evs = parse_log("1, a, Start\n2, a, End", &vec![Some("1".to_string()), Some("2".to_string())])
        .unwrap();
    assert_eq!(evs.len(), 2);
    assert_eq!(evs[0].timestamp, "1");
    assert_eq!(evs[0].name, "a");
    assert_eq!(evs[0].kind, EventKind::Start);
    assert_eq!(evs[1].kind, EventKind::End);
}

#[test]
fn pad_line_repeats_unit() {
    assert_eq!(pad_line(0), "");
    assert_eq!(pad_line(1), "> ");
    assert_eq!(pad_line(3), "> > > ");
}

#[test]
fn render_line_formats_each_kind() {
    let l = RenderedLine { depth: 2, event: event("3.25", "work", EventKind::Start) };
    assert_eq!(render_line(&l), "> > fn work Started at 3.25");
    let l = RenderedLine { depth: 0, event: event("9", "work", EventKind::End) };
    assert_eq!(render_line(&l), "fn work Ended__ at 9");
}

#[test]
fn track_depths_of_empty_log() {
    assert!(track_depths(Vec::new()).is_empty());
}

#[test]
fn kind_labels() {
    assert_eq!(EventKind::Start.as_str(), "Start");
    assert_eq!(EventKind::End.as_str(), "End");
}

#[test]
fn text_helpers() {
    let c = chars_of("  héllo, wörld \u{3000}");
    assert_eq!(string_of(&c), "  héllo, wörld \u{3000}");
    assert_eq!(string_of(&trim_chars(&c)), "héllo, wörld");
    let sep = chars_of(", ");
    let parts: Vec<String> = split_chars(&chars_of("a, b, , c,d"), &sep).iter().map(string_of).collect();
    assert_eq!(parts, vec!["a", "b", "", "c,d"]);
    let parts: Vec<String> = split_chars(&chars_of(", , "), &sep).iter().map(string_of).collect();
    assert_eq!(parts, vec!["", "", ""]);
}
