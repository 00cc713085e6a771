//! Reading a log text into events.
//!
//! The text is trimmed once as a whole and split into lines at `'\n'`; each
//! line splits at `", "` into a timestamp, a name and a kind label. Whether a
//! timestamp is a number, and how it reads back as text, is decided by the
//! caller, who hands in one optional text per line (see [`timestamp_fields`]).

use vstd::prelude::*;
use crate::event::{events_view, kind_of_label, Event, EventKind, EventView, ParseError};
use crate::text::{chars_of, pieces_view, split_chars, split_from, split_on, string_of, trim, trim_chars};

verus! {

/// The separator of lines.
pub open spec fn newline() -> Seq<char> {
    seq!['\n']
}

/// The separator of the fields of a line.
pub open spec fn field_separator() -> Seq<char> {
    seq![',', ' ']
}

/// The lines of a log: the text is trimmed once as a whole and split at
/// each newline. An empty log is one empty line.
pub open spec fn log_lines(input: Seq<char>) -> Seq<Seq<char>> {
    split_on(trim(input), newline())
}

/// The fields of one line.
pub open spec fn line_fields(line: Seq<char>) -> Seq<Seq<char>> {
    split_on(line, field_separator())
}

/// The normalised timestamp handed in for line `i`, if any.
pub open spec fn stamp_at(stamps: Seq<Option<Seq<char>>>, i: int) -> Option<Seq<char>> {
    if 0 <= i < stamps.len() {
        stamps[i]
    } else {
        None
    }
}

/// The views of the normalised timestamps.
pub open spec fn stamps_view(v: Seq<Option<String>>) -> Seq<Option<Seq<char>>> {
    v.map_values(
        |o: Option<String>|
            match o {
                Some(t) => Some(t@),
                None => None,
            },
    )
}

/// What line `i` of a log reads as, given its normalised timestamp.
pub open spec fn parse_line(i: int, line: Seq<char>, stamp: Option<Seq<char>>) -> Result<
    EventView,
    ParseError,
> {
    let f = line_fields(line);
    if f.len() != 3 {
        Err(ParseError::MalformedLine { line: i as usize })
    } else {
        match stamp {
            None => Err(ParseError::BadTimestamp { line: i as usize }),
            Some(ts) => match kind_of_label(f[2]) {
                None => Err(ParseError::BadEventKind { line: i as usize }),
                Some(k) => Ok(EventView { timestamp: ts, name: f[1], kind: k }),
            },
        }
    }
}

/// The events of the first `n` lines, or the error of the first line that
/// fails among them.
pub open spec fn parse_prefix(
    lines: Seq<Seq<char>>,
    stamps: Seq<Option<Seq<char>>>,
    n: nat,
) -> Result<Seq<EventView>, ParseError>
    decreases n,
{
    if n == 0 {
        Ok(Seq::empty())
    } else {
        match parse_prefix(lines, stamps, (n - 1) as nat) {
            Err(e) => Err(e),
            Ok(evs) => match parse_line(n - 1, lines[n - 1], stamp_at(stamps, n - 1)) {
                Err(e) => Err(e),
                Ok(ev) => Ok(evs.push(ev)),
            },
        }
    }
}

/// The events of a whole log, or the error of its first failing line.
pub open spec fn parse_spec(input: Seq<char>, stamps: Seq<Option<Seq<char>>>) -> Result<
    Seq<EventView>,
    ParseError,
> {
    parse_prefix(log_lines(input), stamps, log_lines(input).len())
}

/// Splitting yields at least one piece.
pub proof fn lemma_split_nonempty(s: Seq<char>, delim: Seq<char>, cur: Seq<char>)
    ensures
        split_from(s, delim, cur).len() >= 1,
    decreases s.len(),
{
    if s.len() == 0 {
    } else if 0 < delim.len() <= s.len() && s.take(delim.len() as int) == delim {
        lemma_split_nonempty(s.skip(delim.len() as int), delim, Seq::empty());
    } else {
        lemma_split_nonempty(s.drop_first(), delim, cur.push(s[0]));
    }
}

/// Once a prefix fails, every longer prefix fails with the same error.
pub proof fn lemma_parse_error_stays(
    lines: Seq<Seq<char>>,
    stamps: Seq<Option<Seq<char>>>,
    n: nat,
    m: nat,
)
    requires
        n <= m,
        parse_prefix(lines, stamps, n) is Err,
    ensures
        parse_prefix(lines, stamps, m) == parse_prefix(lines, stamps, n),
    decreases m - n,
{
    if n < m {
        lemma_parse_error_stays(lines, stamps, n, (m - 1) as nat);
    }
}

/// The field separator as characters.
fn field_separator_chars() -> (r: Vec<char>)
    ensures
        r@ == field_separator(),
{
    proof {
        reveal_strlit(", ");
    }
    chars_of(", ")
}

/// The lines of the log `input` as character vectors.
fn lines_of(input: &str) -> (r: Vec<Vec<char>>)
    ensures
        pieces_view(r@) == log_lines(input@),
{
    let chars = chars_of(input);
    let trimmed = trim_chars(&chars);
    let mut nl: Vec<char> = Vec::new();
    nl.push('\n');
    assert(nl@ == newline());
    split_chars(&trimmed, &nl)
}

/// The kind that `label` names, if it names one.
fn kind_from_chars(label: &Vec<char>) -> (r: Option<EventKind>)
    ensures
        r == kind_of_label(label@),
{
    let n = label.len();
    if n == 5 && label[0] == 'S' && label[1] == 't' && label[2] == 'a' && label[3] == 'r'
        && label[4] == 't' {
        assert(label@ == seq!['S', 't', 'a', 'r', 't']);
        Some(EventKind::Start)
    } else if n == 3 && label[0] == 'E' && label[1] == 'n' && label[2] == 'd' {
        assert(label@ == seq!['E', 'n', 'd']);
        Some(EventKind::End)
    } else {
        assert(label@ != seq!['S', 't', 'a', 'r', 't'] && label@ != seq!['E', 'n', 'd']) by {
            if label@ == seq!['S', 't', 'a', 'r', 't'] {
                assert(label@.len() == 5 && label@[0] == 'S' && label@[1] == 't');
            }
            if label@ == seq!['E', 'n', 'd'] {
                assert(label@.len() == 3 && label@[0] == 'E');
            }
        }
        None
    }
}

/// The first field of each line of the log `input`, in order: the text in
/// which each line gives its timestamp.
pub fn timestamp_fields(input: &str) -> (r: Vec<String>)
    ensures
        r@.len() == log_lines(input@).len(),
        forall|i: int|
            0 <= i < r@.len() ==> #[trigger] r@[i]@ == line_fields(log_lines(input@)[i])[0],
{
    let lines = lines_of(input);
    let sep = field_separator_chars();
    let mut r: Vec<String> = Vec::new();
    let mut i: usize = 0;
    while i < lines.len()
        invariant
            i <= lines@.len(),
            pieces_view(lines@) == log_lines(input@),
            sep@ == field_separator(),
            r@.len() == i,
            forall|k: int|
                0 <= k < i ==> #[trigger] r@[k]@ == line_fields(log_lines(input@)[k])[0],
        decreases lines.len() - i,
    {
        let fields = split_chars(&lines[i], &sep);
        proof {
            lemma_split_nonempty(lines@[i as int]@, field_separator(), Seq::empty());
            assert(pieces_view(fields@)[0] == fields@[0]@);
        }
        r.push(string_of(&fields[0]));
        i = i + 1;
    }
    r
}

/// Reads the log `input` into events, given for each line the text that its
/// timestamp reads as, or `None` where the first field is not a number.
///
/// A line that does not split into exactly three fields fails with
/// `MalformedLine`; else one without a timestamp fails with `BadTimestamp`;
/// else one whose third field is neither `Start` nor `End` fails with
/// `BadEventKind`. The first failing line decides the error; an empty log is
/// one empty line, which is malformed.
pub fn parse_log(input: &str, stamps: &Vec<Option<String>>) -> (r: Result<Vec<Event>, ParseError>)
    ensures
        match r {
            Ok(evs) => parse_spec(input@, stamps_view(stamps@)) == Ok::<Seq<EventView>, ParseError>(
                events_view(evs@),
            ),
            Err(e) => parse_spec(input@, stamps_view(stamps@)) == Err::<Seq<EventView>, ParseError>(e),
        },
{
    let lines = lines_of(input);
    let sep = field_separator_chars();
    let ghost ls = log_lines(input@);
    let ghost sv = stamps_view(stamps@);
    let mut events: Vec<Event> = Vec::new();
    let mut i: usize = 0;
    assert(events_view(events@) == Seq::<EventView>::empty());
    while i < lines.len()
        invariant
            i <= lines@.len(),
            pieces_view(lines@) == ls,
            ls == log_lines(input@),
            sv == stamps_view(stamps@),
            sep@ == field_separator(),
            parse_prefix(ls, sv, i as nat) == Ok::<Seq<EventView>, ParseError>(events_view(events@)),
        decreases lines.len() - i,
    {
        let ghost line = ls[i as int];
        assert(lines@[i as int]@ == line);
        let fields = split_chars(&lines[i], &sep);
        let ghost f = line_fields(line);
        assert(f.len() == fields@.len());
        if fields.len() != 3 {
            let e = ParseError::MalformedLine { line: i };
            assert(parse_prefix(ls, sv, (i + 1) as nat) == Err::<Seq<EventView>, ParseError>(e));
            proof {
                lemma_parse_error_stays(ls, sv, (i + 1) as nat, ls.len());
            }
            return Err(e);
        }
        let stamp = if i < stamps.len() {
            match &stamps[i] {
                Some(t) => t.clone(),
                None => {
                    assert(stamp_at(sv, i as int) is None);
                    proof {
                        lemma_parse_error_stays(ls, sv, (i + 1) as nat, ls.len());
                    }
                    return Err(ParseError::BadTimestamp { line: i });
                },
            }
        } else {
            proof {
                lemma_parse_error_stays(ls, sv, (i + 1) as nat, ls.len());
            }
            return Err(ParseError::BadTimestamp { line: i });
        };
        assert(stamp_at(sv, i as int) == Some(stamp@));
        assert(f[2] == fields@[2]@ && f[1] == fields@[1]@);
        let kind = match kind_from_chars(&fields[2]) {
            Some(k) => k,
            None => {
                proof {
                    lemma_parse_error_stays(ls, sv, (i + 1) as nat, ls.len());
                }
                return Err(ParseError::BadEventKind { line: i });
            },
        };
        let ev = Event { timestamp: stamp, name: string_of(&fields[1]), kind };
        let ghost before = events_view(events@);
        events.push(ev);
        assert(events_view(events@) == before.push(ev@));
        i = i + 1;
    }
    Ok(events)
}

} // verus!
