use vstd::prelude::*;

use crate::clock::{datetime_parse, parse_datetime, Stamp};
use crate::pattern::{
    regex_captures, regex_compiles, regex_is_match, regex_replace, Pattern, PatternError,
};
use crate::db::group_text;
use crate::window::group_zero_text;

verus! {

/// The time-stamp layouts of the log formats that are recognised.
#[derive(Clone, Copy, Debug, PartialEq, Eq, Structural)]
pub enum TimeLayout {
    /// `MM/DD hh:mm:ss:mmm` at the start of the line (a client log).
    Client,
    /// `hh:mm:ss:mmm DD.MM.YYYY` at the start of the line.
    Thinmon,
    /// `YYYY-MM-DD hh:mm:ss:mmm` at the start of the line.
    RenderSlaveAgent,
    /// `DD.MM.YYYY hh:mm:ss:mmm` at the start of the line.
    Tppsrv,
}

/// The pattern that finds a time stamp of `layout`.
pub open spec fn layout_source(layout: TimeLayout) -> Seq<char> {
    match layout {
        TimeLayout::Client => "^(\\d+)/(\\d+) (\\d+):(\\d+):(\\d+):(\\d+)"@,
        TimeLayout::Thinmon => "^(\\d{2}):(\\d{2}):(\\d{2})[:.](\\d{3}) +(\\d{2})[.-](\\d{2})[.-](\\d{4})"@,
        TimeLayout::RenderSlaveAgent => "^(\\d{4})[.-](\\d{2})[.-](\\d{2}) +(\\d{2}):(\\d{2}):(\\d{2})[:.](\\d{3})"@,
        TimeLayout::Tppsrv => "^(\\d{2})[.-](\\d{2})[.-](\\d{4}) +(\\d{2}):(\\d{2}):(\\d{2})[:.](\\d{3})"@,
    }
}

/// The template that rewrites a time stamp of `layout` as
/// `YYYY-MM-DD hh:mm:ss:mmm` (client logs carry no year; 2021 is assumed).
pub open spec fn layout_template(layout: TimeLayout) -> Seq<char> {
    match layout {
        TimeLayout::Client => "2021-$1-$2 $3:$4:$5:$6"@,
        TimeLayout::Thinmon => "$7-$6-$5 $1:$2:$3:$4"@,
        TimeLayout::RenderSlaveAgent => "$1-$2-$3 $4:$5:$6:$7"@,
        TimeLayout::Tppsrv => "$3-$2-$1 $4:$5:$6:$7"@,
    }
}

/// The format in which a rewritten time stamp, padded with `000000`, is read.
pub open spec fn rewritten_format() -> Seq<char> {
    "%Y-%m-%d %H:%M:%S:%f"@
}

impl TimeLayout {
    /// The pattern that finds a time stamp of this layout.
    pub fn source(&self) -> (r: &'static str)
        ensures
            r@ == layout_source(*self),
    {
        match self {
            TimeLayout::Client => "^(\\d+)/(\\d+) (\\d+):(\\d+):(\\d+):(\\d+)",
            TimeLayout::Thinmon => "^(\\d{2}):(\\d{2}):(\\d{2})[:.](\\d{3}) +(\\d{2})[.-](\\d{2})[.-](\\d{4})",
            TimeLayout::RenderSlaveAgent => "^(\\d{4})[.-](\\d{2})[.-](\\d{2}) +(\\d{2}):(\\d{2}):(\\d{2})[:.](\\d{3})",
            TimeLayout::Tppsrv => "^(\\d{2})[.-](\\d{2})[.-](\\d{4}) +(\\d{2}):(\\d{2}):(\\d{2})[:.](\\d{3})",
        }
    }

    /// The template that rewrites a time stamp of this layout.
    pub fn template(&self) -> (r: &'static str)
        ensures
            r@ == layout_template(*self),
    {
        match self {
            TimeLayout::Client => "2021-$1-$2 $3:$4:$5:$6",
            TimeLayout::Thinmon => "$7-$6-$5 $1:$2:$3:$4",
            TimeLayout::RenderSlaveAgent => "$1-$2-$3 $4:$5:$6:$7",
            TimeLayout::Tppsrv => "$3-$2-$1 $4:$5:$6:$7",
        }
    }
}

/// The first layout whose stamp was found, in the order client, thinmon,
/// render-slave-agent, tppsrv.
pub open spec fn first_layout_of(client: bool, thinmon: bool, render: bool, tppsrv: bool) -> Option<
    TimeLayout,
> {
    if client {
        Some(TimeLayout::Client)
    } else if thinmon {
        Some(TimeLayout::Thinmon)
    } else if render {
        Some(TimeLayout::RenderSlaveAgent)
    } else if tppsrv {
        Some(TimeLayout::Tppsrv)
    } else {
        None
    }
}

/// The layout of the first of client, thinmon, render-slave-agent and tppsrv
/// stamps that `line` starts with.
pub open spec fn detected_layout(line: Seq<char>) -> Option<TimeLayout> {
    first_layout_of(
        regex_is_match(layout_source(TimeLayout::Client), line),
        regex_is_match(layout_source(TimeLayout::Thinmon), line),
        regex_is_match(layout_source(TimeLayout::RenderSlaveAgent), line),
        regex_is_match(layout_source(TimeLayout::Tppsrv), line),
    )
}

/// The first layout whose stamp was found, in the order client, thinmon,
/// render-slave-agent, tppsrv.
pub fn first_layout(client: bool, thinmon: bool, render: bool, tppsrv: bool) -> (r: Option<
    TimeLayout,
>)
    ensures
        r == first_layout_of(client, thinmon, render, tppsrv),
{
    if client {
        Some(TimeLayout::Client)
    } else if thinmon {
        Some(TimeLayout::Thinmon)
    } else if render {
        Some(TimeLayout::RenderSlaveAgent)
    } else if tppsrv {
        Some(TimeLayout::Tppsrv)
    } else {
        None
    }
}

/// The time that a match of a `layout` stamp with groups `groups` names: its
/// whole text rewritten by the layout's template, padded with `000000`, and
/// read as `%Y-%m-%d %H:%M:%S:%f`.
pub open spec fn match_time(layout: TimeLayout, groups: Seq<Option<Seq<char>>>) -> Option<(int, int)> {
    datetime_parse(
        regex_replace(layout_source(layout), group_zero_text(groups), layout_template(layout))
            + "000000"@,
        rewritten_format(),
    )
}

/// Reads a rewritten stamp `YYYY-MM-DD hh:mm:ss:mmm`: pads it with `000000`
/// to nanoseconds and parses it as `%Y-%m-%d %H:%M:%S:%f`.
pub fn padded_stamp(rewritten: &str) -> (r: Option<Stamp>)
    ensures
        match r {
            Some(s) => datetime_parse(rewritten@ + "000000"@, rewritten_format()) == Some(s@),
            None => datetime_parse(rewritten@ + "000000"@, rewritten_format()) is None,
        },
{
    let complete = rewritten.to_owned().concat("000000");
    parse_datetime(complete.as_str(), "%Y-%m-%d %H:%M:%S:%f")
}

/// Whether all four stamp patterns compile.
pub open spec fn layouts_compile() -> bool {
    &&& regex_compiles(layout_source(TimeLayout::Client))
    &&& regex_compiles(layout_source(TimeLayout::Thinmon))
    &&& regex_compiles(layout_source(TimeLayout::RenderSlaveAgent))
    &&& regex_compiles(layout_source(TimeLayout::Tppsrv))
}

/// The compiled stamp patterns of the four layouts.
pub struct TimeFormats {
    client: Pattern,
    thinmon: Pattern,
    render: Pattern,
    tppsrv: Pattern,
}

impl TimeFormats {
    /// Each pattern is that of its layout.
    pub closed spec fn wf(&self) -> bool {
        &&& self.client@ == layout_source(TimeLayout::Client)
        &&& self.thinmon@ == layout_source(TimeLayout::Thinmon)
        &&& self.render@ == layout_source(TimeLayout::RenderSlaveAgent)
        &&& self.tppsrv@ == layout_source(TimeLayout::Tppsrv)
    }

    /// Compiles the four stamp patterns; `None` where one does not compile.
    pub fn new() -> (r: Option<TimeFormats>)
        ensures
            r is Some <==> layouts_compile(),
            r matches Some(f) ==> f.wf(),
    {
        let client = match Pattern::new(TimeLayout::Client.source()) {
            Ok(p) => p,
            Err(_) => {
                return None;
            },
        };
        let thinmon = match Pattern::new(TimeLayout::Thinmon.source()) {
            Ok(p) => p,
            Err(_) => {
                return None;
            },
        };
        let render = match Pattern::new(TimeLayout::RenderSlaveAgent.source()) {
            Ok(p) => p,
            Err(_) => {
                return None;
            },
        };
        let tppsrv = match Pattern::new(TimeLayout::Tppsrv.source()) {
            Ok(p) => p,
            Err(_) => {
                return None;
            },
        };
        Some(TimeFormats { client, thinmon, render, tppsrv })
    }

    /// The compiled pattern of `layout`.
    pub fn pattern(&self, layout: TimeLayout) -> (r: &Pattern)
        requires
            self.wf(),
        ensures
            r@ == layout_source(layout),
    {
        match layout {
            TimeLayout::Client => &self.client,
            TimeLayout::Thinmon => &self.thinmon,
            TimeLayout::RenderSlaveAgent => &self.render,
            TimeLayout::Tppsrv => &self.tppsrv,
        }
    }

    /// The layout of the first of client, thinmon, render-slave-agent and
    /// tppsrv stamps that `line` starts with.
    pub fn detect(&self, line: &str) -> (r: Option<TimeLayout>)
        requires
            self.wf(),
        ensures
            r == detected_layout(line@),
    {
        let client = self.client.is_match(line);
        let thinmon = self.thinmon.is_match(line);
        let render = self.render.is_match(line);
        let tppsrv = self.tppsrv.is_match(line);
        first_layout(client, thinmon, render, tppsrv)
    }

    /// The time that a match of a `layout` stamp with groups `groups` names:
    /// the whole match rewritten by the layout's template, then read as
    /// `padded_stamp` does.
    pub fn stamp_of_match(&self, layout: TimeLayout, groups: &Vec<Option<String>>) -> (r: Option<Stamp>)
        requires
            self.wf(),
        ensures
            match r {
                Some(s) => match_time(layout, groups.deep_view()) == Some(s@),
                None => match_time(layout, groups.deep_view()) is None,
            },
    {
        let ghost gv = groups.deep_view();
        let raw: &str = if groups.len() > 0 {
            match &groups[0] {
                Some(s) => s.as_str(),
                None => "",
            }
        } else {
            ""
        };
        proof {
            reveal_strlit("");
            if groups.len() > 0 {
                assert(gv[0] == groups@[0].deep_view());
            }
        }
        assert(raw@ == group_zero_text(gv));
        let pat = self.pattern(layout);
        let rewritten = pat.replace(raw, layout.template());
        padded_stamp(rewritten.as_str())
    }
}

/// What a marker line reports.
#[derive(Clone, Copy, Debug, PartialEq, Eq, Structural)]
pub enum DiffEvent {
    /// A start line (one the start pattern matches), stamped `Start.0`.
    Start(Stamp),
    /// An end line stamped `to`, after the latest start line stamped `from`.
    Elapsed { from: Stamp, to: Stamp },
}

/// The latest start time and the event of a stamped line of time `t`, given
/// the latest start time before it and which marker patterns match it: a
/// start line (start pattern) becomes the latest start; an end line (end
/// pattern) reports the time since the latest start, once there is one.
pub open spec fn diff_step_of(start: Option<Stamp>, t: Stamp, is_start: bool, is_end: bool) -> (
    Option<Stamp>,
    Option<DiffEvent>,
) {
    if is_start {
        (Some(t), Some(DiffEvent::Start(t)))
    } else if start is Some && is_end {
        (start, Some(DiffEvent::Elapsed { from: start->0, to: t }))
    } else {
        (start, None)
    }
}

/// Decides on a stamped line of time `t` as `diff_step_of` says.
pub fn diff_step(start: Option<Stamp>, t: Stamp, is_start: bool, is_end: bool) -> (r: (
    Option<Stamp>,
    Option<DiffEvent>,
))
    ensures
        r == diff_step_of(start, t, is_start, is_end),
{
    if is_start {
        (Some(t), Some(DiffEvent::Start(t)))
    } else {
        match start {
            Some(s) => if is_end {
                (start, Some(DiffEvent::Elapsed { from: s, to: t }))
            } else {
                (start, None)
            },
            None => (start, None),
        }
    }
}

/// The layout in force once `line` is read: the one detected in it where
/// none was detected before, else the one in force.
pub open spec fn layout_after(detected: bool, layout: TimeLayout, line: Seq<char>) -> TimeLayout {
    if !detected && detected_layout(line) is Some {
        detected_layout(line)->0
    } else {
        layout
    }
}

/// The time of `line` under `layout`: its stamp rewritten by the layout's
/// template, padded with `000000`, and read as `%Y-%m-%d %H:%M:%S:%f`;
/// `None` where the line has no stamp of that layout or it does not read.
pub open spec fn diff_line_time(layout: TimeLayout, line: Seq<char>) -> Option<(int, int)> {
    match regex_captures(layout_source(layout), line) {
        None => None,
        Some(groups) => match_time(layout, groups),
    }
}

/// The stamp a parse result names.
pub open spec fn stamp_of(p: (int, int)) -> Stamp {
    Stamp { secs: p.0 as i64, nanos: p.1 as u32 }
}

/// Why the time differences could not be set up.
pub enum DiffSetupError {
    /// One of the built-in stamp patterns does not compile.
    Builtin,
    /// The end pattern does not compile.
    Subtrahend(PatternError),
    /// The start pattern does not compile.
    Minuend(PatternError),
}

/// Reports, for each end line, the time elapsed since the latest start line,
/// reading the stamps in the layout detected in the first line that carries
/// one (client stamps until then).
pub struct DiffTracker {
    formats: TimeFormats,
    layout: TimeLayout,
    detected: bool,
    start: Option<Stamp>,
    minuend: Pattern,
    subtrahend: Pattern,
}

impl DiffTracker {
    /// The tracker's internal consistency.
    pub closed spec fn wf(&self) -> bool {
        &&& self.formats.wf()
        &&& !self.detected ==> self.layout == TimeLayout::Client
    }

    /// The stamp layout in force.
    pub closed spec fn layout(&self) -> TimeLayout {
        self.layout
    }

    /// Whether a layout was detected yet.
    pub closed spec fn detected(&self) -> bool {
        self.detected
    }

    /// The time of the latest start line, once there is one.
    pub closed spec fn start(&self) -> Option<Stamp> {
        self.start
    }

    /// The source of the start pattern.
    pub closed spec fn start_source(&self) -> Seq<char> {
        self.minuend@
    }

    /// The source of the end pattern.
    pub closed spec fn end_source(&self) -> Seq<char> {
        self.subtrahend@
    }

    /// A tracker for end lines matching `subtrahend` and start lines matching
    /// `minuend`, with client stamps assumed until another layout is seen.
    pub fn new(subtrahend: &str, minuend: &str) -> (r: Result<DiffTracker, DiffSetupError>)
        ensures
            r matches Err(DiffSetupError::Builtin) <==> !layouts_compile(),
            r matches Err(DiffSetupError::Subtrahend(_)) <==> layouts_compile() && !regex_compiles(
                subtrahend@,
            ),
            r matches Err(DiffSetupError::Minuend(_)) <==> layouts_compile() && regex_compiles(
                subtrahend@,
            ) && !regex_compiles(minuend@),
            r matches Ok(t) ==> {
                &&& t.wf()
                &&& t.layout() == TimeLayout::Client
                &&& !t.detected()
                &&& t.start() is None
                &&& t.start_source() == minuend@
                &&& t.end_source() == subtrahend@
            },
    {
        let formats = match TimeFormats::new() {
            Some(f) => f,
            None => {
                return Err(DiffSetupError::Builtin);
            },
        };
        let end = match Pattern::new(subtrahend) {
            Ok(p) => p,
            Err(e) => {
                return Err(DiffSetupError::Subtrahend(e));
            },
        };
        let begin = match Pattern::new(minuend) {
            Ok(p) => p,
            Err(e) => {
                return Err(DiffSetupError::Minuend(e));
            },
        };
        Ok(
            DiffTracker {
                formats,
                layout: TimeLayout::Client,
                detected: false,
                start: None,
                minuend: begin,
                subtrahend: end,
            },
        )
    }

    /// Reads `line`: detects the stamp layout where none was detected yet,
    /// reads the line's time in the layout in force, and decides on it as
    /// `diff_step` does.
    pub fn step(&mut self, line: &str) -> (r: Option<DiffEvent>)
        requires
            old(self).wf(),
        ensures
            final(self).wf(),
            final(self).start_source() == old(self).start_source(),
            final(self).end_source() == old(self).end_source(),
            final(self).layout() == layout_after(old(self).detected(), old(self).layout(), line@),
            final(self).detected() == (old(self).detected() || detected_layout(line@) is Some),
            !old(self).detected() && detected_layout(line@) is None ==> r is None
                && final(self).start() == old(self).start(),
            match diff_line_time(final(self).layout(), line@) {
                None => r is None && final(self).start() == old(self).start(),
                Some(p) => (final(self).start(), r) == diff_step_of(
                    old(self).start(),
                    stamp_of(p),
                    regex_is_match(old(self).start_source(), line@),
                    regex_is_match(old(self).end_source(), line@),
                ),
            },
    {
        if !self.detected {
            if let Some(l) = self.formats.detect(line) {
                self.layout = l;
                self.detected = true;
            }
        }
        let pat = self.formats.pattern(self.layout);
        let groups = match pat.captures(line) {
            Some(g) => g,
            None => {
                return None;
            },
        };
        let t = match self.formats.stamp_of_match(self.layout, &groups) {
            Some(t) => t,
            None => {
                return None;
            },
        };
        let is_start = self.minuend.is_match(line);
        let is_end = match self.start {
            Some(_) => self.subtrahend.is_match(line),
            None => false,
        };
        let (start, event) = diff_step(self.start, t, is_start, is_end);
        self.start = start;
        event
    }
}

/// Once a layout was detected, no later line changes it.
pub proof fn lemma_layout_fixed_once_detected(layout: TimeLayout, line: Seq<char>)
    ensures
        layout_after(true, layout, line) == layout,
{
}

/// Whether `c` may stand in a capture-group name of a replacement template:
/// a letter, a digit or `_`.
pub open spec fn is_name_char(c: char) -> bool {
    ('a' <= c && c <= 'z') || ('A' <= c && c <= 'Z') || ('0' <= c && c <= '9') || c == '_'
}

/// A replacement template of the `regex` crate expanded for the groups
/// `groups` of a match, as far as its references are a `$` with one digit
/// `N` not followed by a name character: each stands for the text of group
/// `N` (empty where that group took no part in the match or does not exist);
/// every other character stands for itself.
#[verifier::opaque]
pub open spec fn expand_template(t: Seq<char>, groups: Seq<Option<Seq<char>>>) -> Seq<char>
    decreases t.len(),
{
    if t.len() == 0 {
        Seq::empty()
    } else if t[0] == '$' && t.len() >= 2 && '0' <= t[1] && t[1] <= '9' && (t.len() == 2
        || !is_name_char(t[2])) {
        group_text(groups, (t[1] as int) - ('0' as int)) + expand_template(t.skip(2), groups)
    } else {
        seq![t[0]] + expand_template(t.skip(1), groups)
    }
}

/// A date and time written `year-month-day hour:minute:second:millis`.
pub open spec fn written_stamp(
    year: Seq<char>,
    month: Seq<char>,
    day: Seq<char>,
    hour: Seq<char>,
    minute: Seq<char>,
    second: Seq<char>,
    millis: Seq<char>,
) -> Seq<char> {
    year + ("-"@ + (month + ("-"@ + (day + (" "@ + (hour + (":"@ + (minute + (":"@ + (second
        + (":"@ + millis)))))))))))
}

/// One step of expansion at position `k`: a reference `$N` stands for the
/// text of group `N`.
proof fn lemma_expand_ref_at(t: Seq<char>, k: int, groups: Seq<Option<Seq<char>>>)
    requires
        0 <= k,
        k + 2 <= t.len(),
        t[k] == '$',
        '0' <= t[k + 1] && t[k + 1] <= '9',
        k + 2 == t.len() || !is_name_char(t[k + 2]),
    ensures
        expand_template(t.skip(k), groups) == group_text(groups, (t[k + 1] as int) - ('0' as int))
            + expand_template(t.skip(k + 2), groups),
{
    reveal(expand_template);
    assert(t.skip(k).skip(2) =~= t.skip(k + 2));
}

/// One step of expansion at position `k`: any other character stands for
/// itself.
proof fn lemma_expand_char_at(t: Seq<char>, k: int, groups: Seq<Option<Seq<char>>>)
    requires
        0 <= k < t.len(),
        t[k] != '$',
    ensures
        expand_template(t.skip(k), groups) == seq![t[k]] + expand_template(t.skip(k + 1), groups),
{
    reveal(expand_template);
    assert(t.skip(k).skip(1) =~= t.skip(k + 1));
}

/// The client template writes the stamp it matched as
/// `year-month-day hour:minute:second:millis`, taking each field from the
/// group of the layout's pattern that holds it: client `MM/DD hh:mm:ss:mmm`: the year 2021, month group 1, day group 2, time groups 3 to 6.
pub proof fn lemma_client_template_fields(groups: Seq<Option<Seq<char>>>)
    ensures
        expand_template(layout_template(TimeLayout::Client), groups) == written_stamp(
        "2021"@,
        group_text(groups, 1),
        group_text(groups, 2),
        group_text(groups, 3),
        group_text(groups, 4),
        group_text(groups, 5),
        group_text(groups, 6),
        ),
{
    let t = layout_template(TimeLayout::Client);
    reveal_strlit("2021-$1-$2 $3:$4:$5:$6");
    reveal_strlit("-");
    reveal_strlit(" ");
    reveal_strlit(":");
    reveal_strlit("2021");
    assert(t[0] == '2');
    assert(t[1] == '0');
    assert(t[2] == '2');
    assert(t[3] == '1');
    assert(t[4] == '-');
    assert(t[5] == '$');
    assert(t[6] == '1');
    assert(t[7] == '-');
    assert(t[8] == '$');
    assert(t[9] == '2');
    assert(t[10] == ' ');
    assert(t[11] == '$');
    assert(t[12] == '3');
    assert(t[13] == ':');
    assert(t[14] == '$');
    assert(t[15] == '4');
    assert(t[16] == ':');
    assert(t[17] == '$');
    assert(t[18] == '5');
    assert(t[19] == ':');
    assert(t[20] == '$');
    assert(t[21] == '6');
    assert("-"@ =~= seq!['-']);
    assert(" "@ =~= seq![' ']);
    assert(":"@ =~= seq![':']);
    reveal_strlit("-");
    reveal_strlit(" ");
    reveal_strlit(":");
    reveal_strlit("2021");
    assert(t.len() == 22);
    assert(expand_template(t.skip(22), groups) == Seq::<char>::empty()) by {
        reveal(expand_template);
        assert(t.skip(22).len() == 0);
    }
    lemma_expand_ref_at(t, 20, groups);
    lemma_expand_char_at(t, 19, groups);
    lemma_expand_ref_at(t, 17, groups);
    lemma_expand_char_at(t, 16, groups);
    lemma_expand_ref_at(t, 14, groups);
    lemma_expand_char_at(t, 13, groups);
    lemma_expand_ref_at(t, 11, groups);
    lemma_expand_char_at(t, 10, groups);
    lemma_expand_ref_at(t, 8, groups);
    lemma_expand_char_at(t, 7, groups);
    lemma_expand_ref_at(t, 5, groups);
    lemma_expand_char_at(t, 4, groups);
    lemma_expand_char_at(t, 3, groups);
    lemma_expand_char_at(t, 2, groups);
    lemma_expand_char_at(t, 1, groups);
    lemma_expand_char_at(t, 0, groups);
    assert(t.skip(0) =~= t);
    assert(expand_template(t, groups) =~= written_stamp(
        "2021"@,
        group_text(groups, 1),
        group_text(groups, 2),
        group_text(groups, 3),
        group_text(groups, 4),
        group_text(groups, 5),
        group_text(groups, 6),
    ));
}

/// The thinmon template writes the stamp it matched as
/// `year-month-day hour:minute:second:millis`, taking each field from the
/// group of the layout's pattern that holds it: thinmon `hh:mm:ss.mmm DD.MM.YYYY`: year group 7, month group 6 (the `MM`), day group 5 (the `DD`), time groups 1 to 4.
pub proof fn lemma_thinmon_template_fields(groups: Seq<Option<Seq<char>>>)
    ensures
        expand_template(layout_template(TimeLayout::Thinmon), groups) == written_stamp(
        group_text(groups, 7),
        group_text(groups, 6),
        group_text(groups, 5),
        group_text(groups, 1),
        group_text(groups, 2),
        group_text(groups, 3),
        group_text(groups, 4),
        ),
{
    let t = layout_template(TimeLayout::Thinmon);
    reveal_strlit("$7-$6-$5 $1:$2:$3:$4");
    reveal_strlit("-");
    reveal_strlit(" ");
    reveal_strlit(":");
    assert(t[0] == '$');
    assert(t[1] == '7');
    assert(t[2] == '-');
    assert(t[3] == '$');
    assert(t[4] == '6');
    assert(t[5] == '-');
    assert(t[6] == '$');
    assert(t[7] == '5');
    assert(t[8] == ' ');
    assert(t[9] == '$');
    assert(t[10] == '1');
    assert(t[11] == ':');
    assert(t[12] == '$');
    assert(t[13] == '2');
    assert(t[14] == ':');
    assert(t[15] == '$');
    assert(t[16] == '3');
    assert(t[17] == ':');
    assert(t[18] == '$');
    assert(t[19] == '4');
    assert("-"@ =~= seq!['-']);
    assert(" "@ =~= seq![' ']);
    assert(":"@ =~= seq![':']);
    reveal_strlit("-");
    reveal_strlit(" ");
    reveal_strlit(":");
    assert(t.len() == 20);
    assert(expand_template(t.skip(20), groups) == Seq::<char>::empty()) by {
        reveal(expand_template);
        assert(t.skip(20).len() == 0);
    }
    lemma_expand_ref_at(t, 18, groups);
    lemma_expand_char_at(t, 17, groups);
    lemma_expand_ref_at(t, 15, groups);
    lemma_expand_char_at(t, 14, groups);
    lemma_expand_ref_at(t, 12, groups);
    lemma_expand_char_at(t, 11, groups);
    lemma_expand_ref_at(t, 9, groups);
    lemma_expand_char_at(t, 8, groups);
    lemma_expand_ref_at(t, 6, groups);
    lemma_expand_char_at(t, 5, groups);
    lemma_expand_ref_at(t, 3, groups);
    lemma_expand_char_at(t, 2, groups);
    lemma_expand_ref_at(t, 0, groups);
    assert(t.skip(0) =~= t);
    assert(expand_template(t, groups) =~= written_stamp(
        group_text(groups, 7),
        group_text(groups, 6),
        group_text(groups, 5),
        group_text(groups, 1),
        group_text(groups, 2),
        group_text(groups, 3),
        group_text(groups, 4),
    ));
}

/// The render-slave-agent template writes the stamp it matched as
/// `year-month-day hour:minute:second:millis`, taking each field from the
/// group of the layout's pattern that holds it: render-slave-agent `YYYY-MM-DD hh:mm:ss.mmm`: year, month and day groups 1 to 3, time groups 4 to 7.
pub proof fn lemma_render_slave_agent_template_fields(groups: Seq<Option<Seq<char>>>)
    ensures
        expand_template(layout_template(TimeLayout::RenderSlaveAgent), groups) == written_stamp(
        group_text(groups, 1),
        group_text(groups, 2),
        group_text(groups, 3),
        group_text(groups, 4),
        group_text(groups, 5),
        group_text(groups, 6),
        group_text(groups, 7),
        ),
{
    let t = layout_template(TimeLayout::RenderSlaveAgent);
    reveal_strlit("$1-$2-$3 $4:$5:$6:$7");
    reveal_strlit("-");
    reveal_strlit(" ");
    reveal_strlit(":");
    assert(t[0] == '$');
    assert(t[1] == '1');
    assert(t[2] == '-');
    assert(t[3] == '$');
    assert(t[4] == '2');
    assert(t[5] == '-');
    assert(t[6] == '$');
    assert(t[7] == '3');
    assert(t[8] == ' ');
    assert(t[9] == '$');
    assert(t[10] == '4');
    assert(t[11] == ':');
    assert(t[12] == '$');
    assert(t[13] == '5');
    assert(t[14] == ':');
    assert(t[15] == '$');
    assert(t[16] == '6');
    assert(t[17] == ':');
    assert(t[18] == '$');
    assert(t[19] == '7');
    assert("-"@ =~= seq!['-']);
    assert(" "@ =~= seq![' ']);
    assert(":"@ =~= seq![':']);
    reveal_strlit("-");
    reveal_strlit(" ");
    reveal_strlit(":");
    assert(t.len() == 20);
    assert(expand_template(t.skip(20), groups) == Seq::<char>::empty()) by {
        reveal(expand_template);
        assert(t.skip(20).len() == 0);
    }
    lemma_expand_ref_at(t, 18, groups);
    lemma_expand_char_at(t, 17, groups);
    lemma_expand_ref_at(t, 15, groups);
    lemma_expand_char_at(t, 14, groups);
    lemma_expand_ref_at(t, 12, groups);
    lemma_expand_char_at(t, 11, groups);
    lemma_expand_ref_at(t, 9, groups);
    lemma_expand_char_at(t, 8, groups);
    lemma_expand_ref_at(t, 6, groups);
    lemma_expand_char_at(t, 5, groups);
    lemma_expand_ref_at(t, 3, groups);
    lemma_expand_char_at(t, 2, groups);
    lemma_expand_ref_at(t, 0, groups);
    assert(t.skip(0) =~= t);
    assert(expand_template(t, groups) =~= written_stamp(
        group_text(groups, 1),
        group_text(groups, 2),
        group_text(groups, 3),
        group_text(groups, 4),
        group_text(groups, 5),
        group_text(groups, 6),
        group_text(groups, 7),
    ));
}

/// The tppsrv template writes the stamp it matched as
/// `year-month-day hour:minute:second:millis`, taking each field from the
/// group of the layout's pattern that holds it: tppsrv `DD.MM.YYYY hh:mm:ss.mmm`: year group 3, month group 2 (the `MM`), day group 1 (the `DD`), time groups 4 to 7.
pub proof fn lemma_tppsrv_template_fields(groups: Seq<Option<Seq<char>>>)
    ensures
        expand_template(layout_template(TimeLayout::Tppsrv), groups) == written_stamp(
        group_text(groups, 3),
        group_text(groups, 2),
        group_text(groups, 1),
        group_text(groups, 4),
        group_text(groups, 5),
        group_text(groups, 6),
        group_text(groups, 7),
        ),
{
    let t = layout_template(TimeLayout::Tppsrv);
    reveal_strlit("$3-$2-$1 $4:$5:$6:$7");
    reveal_strlit("-");
    reveal_strlit(" ");
    reveal_strlit(":");
    assert(t[0] == '$');
    assert(t[1] == '3');
    assert(t[2] == '-');
    assert(t[3] == '$');
    assert(t[4] == '2');
    assert(t[5] == '-');
    assert(t[6] == '$');
    assert(t[7] == '1');
    assert(t[8] == ' ');
    assert(t[9] == '$');
    assert(t[10] == '4');
    assert(t[11] == ':');
    assert(t[12] == '$');
    assert(t[13] == '5');
    assert(t[14] == ':');
    assert(t[15] == '$');
    assert(t[16] == '6');
    assert(t[17] == ':');
    assert(t[18] == '$');
    assert(t[19] == '7');
    assert("-"@ =~= seq!['-']);
    assert(" "@ =~= seq![' ']);
    assert(":"@ =~= seq![':']);
    reveal_strlit("-");
    reveal_strlit(" ");
    reveal_strlit(":");
    assert(t.len() == 20);
    assert(expand_template(t.skip(20), groups) == Seq::<char>::empty()) by {
        reveal(expand_template);
        assert(t.skip(20).len() == 0);
    }
    lemma_expand_ref_at(t, 18, groups);
    lemma_expand_char_at(t, 17, groups);
    lemma_expand_ref_at(t, 15, groups);
    lemma_expand_char_at(t, 14, groups);
    lemma_expand_ref_at(t, 12, groups);
    lemma_expand_char_at(t, 11, groups);
    lemma_expand_ref_at(t, 9, groups);
    lemma_expand_char_at(t, 8, groups);
    lemma_expand_ref_at(t, 6, groups);
    lemma_expand_char_at(t, 5, groups);
    lemma_expand_ref_at(t, 3, groups);
    lemma_expand_char_at(t, 2, groups);
    lemma_expand_ref_at(t, 0, groups);
    assert(t.skip(0) =~= t);
    assert(expand_template(t, groups) =~= written_stamp(
        group_text(groups, 3),
        group_text(groups, 2),
        group_text(groups, 1),
        group_text(groups, 4),
        group_text(groups, 5),
        group_text(groups, 6),
        group_text(groups, 7),
    ));
}

} // verus!
