use ccsplit::clock::Stamp;
use ccsplit::timediff::{first_layout, padded_stamp, diff_step, DiffEvent, DiffTracker, TimeFormats, TimeLayout};
use ccsplit::window::{decide, line_time, LineTime, TimeWindow, Verdict};

fn at(secs: i64) -> Stamp {
    Stamp { secs, nanos: 0 }
}

#[test]
fn parses_stamps_as_utc_seconds() {
    let caps = |s: &str| Some(vec![Some(s.to_string())]);
    assert_eq!(
        line_time(caps("2021-06-29 13:06:56"), "%Y-%m-%d %H:%M:%S"),
        LineTime::At(Stamp { secs: 1624972016, nanos: 0 })
    );
    assert_eq!(
        line_time(caps("2021-07-05 12:32:47:137000000"), "%Y-%m-%d %H:%M:%S:%f"),
        LineTime::At(Stamp { secs: 1625488367, nanos: 137000000 })
    );
    assert_eq!(line_time(caps(""), "%Y-%m-%d %H:%M:%S"), LineTime::Unreadable);
    assert_eq!(line_time(Some(vec![]), "%Y-%m-%d %H:%M:%S"), LineTime::Unreadable);
    assert_eq!(line_time(caps("2021-13-01 00:00:00"), "%Y-%m-%d %H:%M:%S"), LineTime::Unreadable);
}

#[test]
fn stamps_order_by_seconds_then_nanos() {
    assert!(at(5).not_after(&at(5)));
    assert!(at(4).not_after(&at(5)));
    assert!(!at(6).not_after(&at(5)));
    assert!(Stamp { secs: 5, nanos: 1 }.not_after(&Stamp { secs: 5, nanos: 2 }));
    assert!(!Stamp { secs: 5, nanos: 3 }.not_after(&Stamp { secs: 5, nanos: 2 }));
}

#[test]
fn decide_untimed_and_unreadable_lines() {
    assert_eq!(
        decide(Some(at(1)), None, false, LineTime::Untimed),
        Some(Verdict { print: false, stop: false, printing: false })
    );
    assert_eq!(
        decide(Some(at(1)), None, true, LineTime::Untimed),
        Some(Verdict { print: true, stop: false, printing: true })
    );
    assert_eq!(
        decide(None, None, true, LineTime::Unreadable),
        Some(Verdict { print: false, stop: false, printing: true })
    );
}

#[test]
fn decide_stamped_lines() {
    // only a lower limit
    assert_eq!(
        decide(Some(at(10)), None, false, LineTime::At(at(9))),
        Some(Verdict { print: false, stop: false, printing: false })
    );
    assert_eq!(
        decide(Some(at(10)), None, false, LineTime::At(at(10))),
        Some(Verdict { print: true, stop: false, printing: true })
    );
    // only an upper limit
    assert_eq!(
        decide(None, Some(at(10)), false, LineTime::At(at(3))),
        Some(Verdict { print: true, stop: false, printing: true })
    );
    assert_eq!(
        decide(None, Some(at(10)), true, LineTime::At(at(10))),
        Some(Verdict { print: true, stop: true, printing: true })
    );
    // both limits
    assert_eq!(
        decide(Some(at(5)), Some(at(10)), false, LineTime::At(at(4))),
        Some(Verdict { print: false, stop: false, printing: false })
    );
    assert_eq!(
        decide(Some(at(5)), Some(at(10)), true, LineTime::At(at(11))),
        Some(Verdict { print: false, stop: true, printing: true })
    );
    // neither limit readable
    assert_eq!(decide(None, None, false, LineTime::At(at(1))), None);
}

#[test]
fn line_time_from_captures() {
    assert_eq!(line_time(None, "%Y-%m-%d %H:%M:%S"), LineTime::Untimed);
    let caps = Some(vec![Some("2021-06-29 13:06:56".to_string())]);
    assert_eq!(line_time(caps, "%Y-%m-%d %H:%M:%S"), LineTime::At(at(1624972016)));
    let bad = Some(vec![Some("2021-99-29 13:06:56".to_string())]);
    assert_eq!(line_time(bad, "%Y-%m-%d %H:%M:%S"), LineTime::Unreadable);
}

#[test]
fn window_cuts_between_limits() {
    let mut w = TimeWindow::new("2021-06-29 13:00:00", "2021-06-29 13:10:00").unwrap();
    let print = |v: Option<Verdict>| v.map(|v| (v.print, v.stop));
    assert_eq!(print(w.step("intro")), Some((false, false)));
    assert_eq!(print(w.step("2021-06-29 12:59:59 early")), Some((false, false)));
    assert_eq!(print(w.step("more")), Some((false, false)));
    assert_eq!(print(w.step("2021-06-29 13:05:00 inside")), Some((true, false)));
    assert_eq!(print(w.step("  detail")), Some((true, false)));
    assert_eq!(print(w.step("2021-06-29 13:10:00 last")), Some((true, true)));
}

#[test]
fn window_without_limits_refuses_stamped_lines() {
    let mut w = TimeWindow::new("", "not a time").unwrap();
    assert_eq!(w.step("untimed"), Some(Verdict { print: false, stop: false, printing: false }));
    assert_eq!(w.step("2021-06-29 13:05:00 x"), None);
}

#[test]
fn layouts_are_detected_in_order() {
    let f = TimeFormats::new().unwrap();
    assert_eq!(f.detect("07/05 12:32:47:137 11900 4168 _INF_"), Some(TimeLayout::Client));
    assert_eq!(f.detect("12:32:47.137  05.07.2021 thinmon"), Some(TimeLayout::Thinmon));
    assert_eq!(f.detect("2021-07-05 12:32:47.137 agent"), Some(TimeLayout::RenderSlaveAgent));
    assert_eq!(f.detect("05-07-2021 12:32:47:137 srv"), Some(TimeLayout::Tppsrv));
    assert_eq!(f.detect("no stamp"), None);
    assert_eq!(TimeLayout::Client.template(), "2021-$1-$2 $3:$4:$5:$6");
}

#[test]
fn diff_step_decisions() {
    assert_eq!(diff_step(None, at(5), true, false), (Some(at(5)), Some(DiffEvent::Start(at(5)))));
    assert_eq!(diff_step(None, at(5), false, true), (None, None));
    assert_eq!(
        diff_step(Some(at(2)), at(5), false, true),
        (Some(at(2)), Some(DiffEvent::Elapsed { from: at(2), to: at(5) }))
    );
    assert_eq!(diff_step(Some(at(2)), at(5), false, false), (Some(at(2)), None));
    assert_eq!(diff_step(Some(at(2)), at(7), true, true), (Some(at(7)), Some(DiffEvent::Start(at(7)))));
}

#[test]
fn tracker_reports_elapsed_time() {
    let mut t = match DiffTracker::new("END", "BEGIN") {
        Ok(t) => t,
        Err(_) => panic!("tracker"),
    };
    assert_eq!(t.step("banner without stamp"), None);
    assert_eq!(t.step("07/05 12:32:47:137 END too early"), None);
    let start = Stamp { secs: 1625488367, nanos: 137000000 };
    assert_eq!(t.step("07/05 12:32:47:137 BEGIN work"), Some(DiffEvent::Start(start)));
    assert_eq!(t.step("07/05 12:32:48:000 step"), None);
    let end = Stamp { secs: 1625488369, nanos: 500000000 };
    assert_eq!(
        t.step("07/05 12:32:49:500 END work"),
        Some(DiffEvent::Elapsed { from: start, to: end })
    );
}

#[test]
fn tracker_keeps_first_detected_layout() {
    let mut t = match DiffTracker::new("END", "BEGIN") {
        Ok(t) => t,
        Err(_) => panic!("tracker"),
    };
    let start = Stamp { secs: 1625488367, nanos: 137000000 };
    assert_eq!(t.step("2021-07-05 12:32:47.137 BEGIN"), Some(DiffEvent::Start(start)));
    // a client stamp is no longer read once the render-slave-agent layout is set
    assert_eq!(t.step("07/05 12:32:49:500 END"), None);
    assert!(DiffTracker::new("(", "x").is_err());
}

#[test]
fn first_layout_in_order() {
    assert_eq!(first_layout(true, true, true, true), Some(TimeLayout::Client));
    assert_eq!(first_layout(false, true, false, true), Some(TimeLayout::Thinmon));
    assert_eq!(first_layout(false, false, true, true), Some(TimeLayout::RenderSlaveAgent));
    assert_eq!(first_layout(false, false, false, true), Some(TimeLayout::Tppsrv));
    assert_eq!(first_layout(false, false, false, false), None);
}

#[test]
fn padded_and_matched_stamps() {
    assert_eq!(
        padded_stamp("2021-07-05 12:32:47:137"),
        Some(Stamp { secs: 1625488367, nanos: 137000000 })
    );
    assert_eq!(padded_stamp("2021-07-05 12:32"), None);
    let f = TimeFormats::new().unwrap();
    let groups = vec![
        Some("05.07.2021 12:32:47.137".to_string()),
        Some("05".to_string()),
    ];
    assert_eq!(
        f.stamp_of_match(TimeLayout::Tppsrv, &groups),
        Some(Stamp { secs: 1625488367, nanos: 137000000 })
    );
    assert_eq!(f.stamp_of_match(TimeLayout::Client, &vec![Some("junk".to_string())]), None);
}

#[test]
fn no_diff_output_before_a_layout_is_detected() {
    let mut t = match DiffTracker::new(".", ".") {
        Ok(t) => t,
        Err(_) => panic!("tracker"),
    };
    assert_eq!(t.step("no stamp at all"), None);
    assert_eq!(t.step("x 07/05 12:32:47:137 stamp not at line start"), None);
}
