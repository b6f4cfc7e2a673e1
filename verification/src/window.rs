use vstd::prelude::*;

use crate::clock::{datetime_parse, parse_datetime, stamp_le, Stamp};
use crate::pattern::{regex_captures, regex_compiles, Pattern};

verus! {

/// The pattern that finds the time stamp of a line: `\d+-\d+-\d+ \d+:\d+:\d+`.
pub open spec fn stamp_pattern() -> Seq<char> {
    "\\d+-\\d+-\\d+ \\d+:\\d+:\\d+"@
}

/// The format of line time stamps and of the window's limits.
pub open spec fn stamp_format() -> Seq<char> {
    "%Y-%m-%d %H:%M:%S"@
}

/// What a line tells of its time.
#[derive(Clone, Copy, Debug, PartialEq, Eq, Structural)]
pub enum LineTime {
    /// The line carries no time stamp.
    Untimed,
    /// The line carries a time stamp that does not read as a date and time.
    Unreadable,
    /// The line is stamped with this time.
    At(Stamp),
}

/// The text of capture group 0 (the whole match), or the empty text.
pub open spec fn group_zero_text(groups: Seq<Option<Seq<char>>>) -> Seq<char> {
    if groups.len() > 0 && groups[0] is Some {
        groups[0]->0
    } else {
        Seq::empty()
    }
}

/// The time a parse result names.
pub open spec fn stamp_from(parsed: Option<(int, int)>) -> LineTime {
    match parsed {
        Some(p) => LineTime::At(Stamp { secs: p.0 as i64, nanos: p.1 as u32 }),
        None => LineTime::Unreadable,
    }
}

/// What a line tells of its time, given the captures of a stamp pattern on
/// it: untimed where the pattern did not match, else the matched text read
/// with `format`.
pub open spec fn line_time_of(caps: Option<Seq<Option<Seq<char>>>>, format: Seq<char>) -> LineTime {
    match caps {
        None => LineTime::Untimed,
        Some(groups) => stamp_from(datetime_parse(group_zero_text(groups), format)),
    }
}

/// Reads the time of a line from the captures `caps` of a stamp pattern on it.
pub fn line_time(caps: Option<Vec<Option<String>>>, format: &str) -> (r: LineTime)
    ensures
        r == line_time_of(caps.deep_view(), format@),
{
    match caps {
        None => LineTime::Untimed,
        Some(groups) => {
            let ghost gv = groups.deep_view();
            let text: &str = if groups.len() > 0 {
                match &groups[0] {
                    Some(s) => s.as_str(),
                    None => "",
                }
            } else {
                ""
            };
            proof {
                reveal_strlit("");
                if groups.len() > 0 {
                    assert(gv[0] == groups@[0].deep_view());
                }
            }
            assert(text@ == group_zero_text(gv));
            match parse_datetime(text, format) {
                Some(s) => LineTime::At(s),
                None => LineTime::Unreadable,
            }
        },
    }
}

/// Whether `t` lies within the limits that could be read: from `head` on,
/// up to `tail`, or both.
pub open spec fn in_window(head: Option<Stamp>, tail: Option<Stamp>, t: Stamp) -> bool {
    match (head, tail) {
        (Some(h), None) => stamp_le(h, t),
        (None, Some(l)) => stamp_le(t, l),
        (Some(h), Some(l)) => stamp_le(h, t) && stamp_le(t, l),
        (None, None) => false,
    }
}

/// What to do with a line.
#[derive(Clone, Copy, Debug, PartialEq, Eq, Structural)]
pub struct Verdict {
    /// Print the line.
    pub print: bool,
    /// Stop reading after this line.
    pub stop: bool,
    /// Whether untimed lines are printed from now on.
    pub printing: bool,
}

/// The verdict on a line of time `time`, given the limits that could be read
/// and whether untimed lines are being printed; `None` for a stamped line
/// when neither limit could be read.
pub open spec fn verdict_of(head: Option<Stamp>, tail: Option<Stamp>, printing: bool, time: LineTime) -> Option<
    Verdict,
> {
    match time {
        LineTime::Untimed => Some(Verdict { print: printing, stop: false, printing }),
        LineTime::Unreadable => Some(Verdict { print: false, stop: false, printing }),
        LineTime::At(t) => if head is None && tail is None {
            None
        } else {
            Some(
                Verdict {
                    print: in_window(head, tail, t),
                    stop: tail matches Some(l) && stamp_le(l, t),
                    printing: printing || in_window(head, tail, t),
                },
            )
        },
    }
}

/// Decides on a line of time `time`: a stamped line is printed where it lies
/// within the limits and ends the reading where it is at or past the upper
/// limit; an untimed line is printed once some stamped line was printed.
pub fn decide(head: Option<Stamp>, tail: Option<Stamp>, printing: bool, time: LineTime) -> (r: Option<Verdict>)
    ensures
        r == verdict_of(head, tail, printing, time),
        match (time, r) {
            (LineTime::At(t), Some(v)) => v.print <==> ((head matches Some(h) ==> stamp_le(h, t))
                && (tail matches Some(l) ==> stamp_le(t, l))),
            _ => true,
        },
{
    match time {
        LineTime::Untimed => Some(Verdict { print: printing, stop: false, printing }),
        LineTime::Unreadable => Some(Verdict { print: false, stop: false, printing }),
        LineTime::At(t) => {
            let inside = match (head, tail) {
                (Some(h), None) => h.not_after(&t),
                (None, Some(l)) => t.not_after(&l),
                (Some(h), Some(l)) => h.not_after(&t) && t.not_after(&l),
                (None, None) => {
                    return None;
                },
            };
            let stop = match tail {
                Some(l) => l.not_after(&t),
                None => false,
            };
            Some(Verdict { print: inside, stop, printing: printing || inside })
        },
    }
}

/// Once untimed lines are printed, they stay printed.
pub proof fn lemma_printing_stays_on(head: Option<Stamp>, tail: Option<Stamp>, time: LineTime)
    ensures
        verdict_of(head, tail, true, time) matches Some(v) ==> v.printing,
{
}

/// Reading stops only at a stamped line at or past a readable upper limit.
pub proof fn lemma_stop_only_past_tail(
    head: Option<Stamp>,
    tail: Option<Stamp>,
    printing: bool,
    time: LineTime,
)
    ensures
        verdict_of(head, tail, printing, time) matches Some(v) && v.stop ==> (time matches LineTime::At(
            t,
        ) && tail matches Some(l) && stamp_le(l, t)),
{
}

/// A stamped line is printed exactly when its time lies within every limit
/// that could be read (not before a readable start time, not after a
/// readable stop time); reading stops exactly at a stamped line at or after a
/// readable stop time; and a stamped line is refused only when neither limit
/// could be read.
pub proof fn lemma_printed_within_limits(
    head: Option<Stamp>,
    tail: Option<Stamp>,
    printing: bool,
    t: Stamp,
)
    ensures
        verdict_of(head, tail, printing, LineTime::At(t)) is None <==> (head is None && tail is None),
        verdict_of(head, tail, printing, LineTime::At(t)) matches Some(v) ==> {
            &&& v.print <==> ((head matches Some(h) ==> stamp_le(h, t)) && (tail matches Some(l)
                ==> stamp_le(t, l)))
            &&& v.stop <==> (tail matches Some(l) && stamp_le(l, t))
            &&& v.printing == (printing || v.print)
        },
{
}

/// Whether a pattern text holds an assertion that ties a match to a place in
/// the line: `^`, `$`, or one of `\A`, `\z`, `\b`, `\B`.
pub open spec fn has_anchor(p: Seq<char>) -> bool {
    exists|i: int|
        0 <= i < p.len() && (#[trigger] p[i] == '^' || p[i] == '$' || (p[i] == '\\' && i + 1 < p.len() && (
        p[i + 1] == 'A' || p[i + 1] == 'z' || p[i + 1] == 'b' || p[i + 1] == 'B')))
}

/// The stamp pattern is not tied to any place in the line: a time stamp is
/// looked for anywhere in it, not only at its start.
pub proof fn lemma_stamp_found_anywhere()
    ensures
        !has_anchor(stamp_pattern()),
{
    let p = stamp_pattern();
    reveal_strlit("\\d+-\\d+-\\d+ \\d+:\\d+:\\d+");
    assert(p.len() == 23);
    assert(p[0] == '\\');
    assert(p[1] == 'd');
    assert(p[2] == '+');
    assert(p[3] == '-');
    assert(p[4] == '\\');
    assert(p[5] == 'd');
    assert(p[6] == '+');
    assert(p[7] == '-');
    assert(p[8] == '\\');
    assert(p[9] == 'd');
    assert(p[10] == '+');
    assert(p[11] == ' ');
    assert(p[12] == '\\');
    assert(p[13] == 'd');
    assert(p[14] == '+');
    assert(p[15] == ':');
    assert(p[16] == '\\');
    assert(p[17] == 'd');
    assert(p[18] == '+');
    assert(p[19] == ':');
    assert(p[20] == '\\');
    assert(p[21] == 'd');
    assert(p[22] == '+');
    assert forall|i: int| 0 <= i < p.len() implies !(#[trigger] p[i] == '^' || p[i] == '$' || (p[i] == '\\'
        && i + 1 < p.len() && (p[i + 1] == 'A' || p[i + 1] == 'z' || p[i + 1] == 'b' || p[i + 1]
        == 'B'))) by {
        if p[i] == '\\' {
            assert(p[i + 1] == 'd');
        }
    }
}

/// Cuts the lines between two time stamps out of a log.
pub struct TimeWindow {
    stamps: Pattern,
    head: Option<Stamp>,
    tail: Option<Stamp>,
    printing: bool,
}

impl TimeWindow {
    /// The lower limit, where it could be read.
    pub closed spec fn lower(&self) -> Option<Stamp> {
        self.head
    }

    /// The upper limit, where it could be read.
    pub closed spec fn upper(&self) -> Option<Stamp> {
        self.tail
    }

    /// Whether untimed lines are printed.
    pub closed spec fn is_printing(&self) -> bool {
        self.printing
    }

    /// The source of the pattern that finds time stamps.
    pub closed spec fn stamp_source(&self) -> Seq<char> {
        self.stamps@
    }

    /// A window from `cuthead` to `cuttail`, each read as
    /// `%Y-%m-%d %H:%M:%S` where it can be; `None` where the stamp pattern
    /// does not compile.
    pub fn new(cuthead: &str, cuttail: &str) -> (r: Option<TimeWindow>)
        ensures
            r is Some <==> regex_compiles(stamp_pattern()),
            r matches Some(w) ==> {
                &&& w.stamp_source() == stamp_pattern()
                &&& stamp_from(datetime_parse(cuthead@, stamp_format())) == match w.lower() {
                    Some(h) => LineTime::At(h),
                    None => LineTime::Unreadable,
                }
                &&& stamp_from(datetime_parse(cuttail@, stamp_format())) == match w.upper() {
                    Some(l) => LineTime::At(l),
                    None => LineTime::Unreadable,
                }
                &&& !w.is_printing()
            },
    {
        let format = "%Y-%m-%d %H:%M:%S";
        let source = "\\d+-\\d+-\\d+ \\d+:\\d+:\\d+";
        match Pattern::new(source) {
            Ok(stamps) => {
                let head = parse_datetime(cuthead, format);
                let tail = parse_datetime(cuttail, format);
                Some(TimeWindow { stamps, head, tail, printing: false })
            },
            Err(_) => None,
        }
    }

    /// Decides on `line`: reads its time stamp and judges it as `decide`
    /// does, then records whether untimed lines are printed from now on.
    pub fn step(&mut self, line: &str) -> (r: Option<Verdict>)
        ensures
            r == verdict_of(
                old(self).lower(),
                old(self).upper(),
                old(self).is_printing(),
                line_time_of(regex_captures(old(self).stamp_source(), line@), stamp_format()),
            ),
            final(self).lower() == old(self).lower(),
            final(self).upper() == old(self).upper(),
            final(self).stamp_source() == old(self).stamp_source(),
            final(self).is_printing() == match r {
                Some(v) => v.printing,
                None => old(self).is_printing(),
            },
    {
        let time = line_time(self.stamps.captures(line), "%Y-%m-%d %H:%M:%S");
        let r = decide(self.head, self.tail, self.printing, time);
        if let Some(v) = r {
            self.printing = v.printing;
        }
        r
    }
}

} // verus!
