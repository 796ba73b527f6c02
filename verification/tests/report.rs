use howudoin::report::{estimate_remaining, Message, Progress, Report, Severity, State};

fn running(len: Option<u64>, pos: u64) -> Report {
    Report { state: State::InProgress { len, pos, bytes: false, remaining: None }, ..Report::default() }
}

#[test]
fn defaults() {
    assert_eq!(Severity::default(), Severity::Info);
    assert_eq!(State::default(), State::InProgress { len: None, pos: 0, bytes: false, remaining: None });
    assert_eq!(
        Report::default(),
        Report { label: String::new(), desc: String::new(), state: State::default(), accums: vec![] }
    );
}

#[test]
fn severity_is_ordered_and_named() {
    assert!(Severity::Error < Severity::Warn);
    assert!(Severity::Warn < Severity::Info);
    assert_eq!(Severity::Error.as_str(), "ERROR");
    assert_eq!(Severity::Warn.as_str(), "WARN");
    assert_eq!(Severity::Info.as_str(), "INFO");
}

#[test]
fn clones_are_equal() {
    let r = Report {
        label: "l".into(),
        desc: "d".into(),
        state: State::Completed { duration: 3 },
        accums: vec![
            Message { severity: Severity::Warn, msg: "w".into() },
            Message { severity: Severity::Info, msg: "i".into() },
        ],
    };
    assert_eq!(r.clone(), r);
    assert_eq!(r.accums[0].clone(), r.accums[0]);
    let p = Progress { report: r.clone(), children: vec![Progress { report: r, children: vec![] }] };
    assert_eq!(p.clone(), p);
}

#[test]
fn estimate_exact_values() {
    // 10 ticks took 5 s: the 90 to go take 45 s
    assert_eq!(estimate_remaining(90, 10, 5_000_000_000), Some(45_000_000_000));
    // rounded down
    assert_eq!(estimate_remaining(1, 3, 10), Some(3));
    assert_eq!(estimate_remaining(2, 3, 10), Some(6));
    // nothing to go, or no time passed
    assert_eq!(estimate_remaining(0, 7, 1_000), Some(0));
    assert_eq!(estimate_remaining(7, 7, 0), Some(0));
    // no tick done: no pace
    assert_eq!(estimate_remaining(5, 0, 1_000), None);
    assert_eq!(estimate_remaining(0, 0, 0), None);
    // capped
    assert_eq!(estimate_remaining(u64::MAX, 1, u64::MAX), Some(u64::MAX));
    assert_eq!(estimate_remaining(u64::MAX, 1, 2), Some(u64::MAX));
    assert_eq!(estimate_remaining(u64::MAX, 2, 2), Some(u64::MAX));
    assert_eq!(estimate_remaining(u64::MAX, 4, 2), Some(u64::MAX / 2));
}

#[test]
fn update_pos_clamps_to_the_length() {
    let mut r = running(Some(10), 0);
    r.update_pos(7, 7_000);
    assert_eq!(r.state, State::InProgress { len: Some(10), pos: 7, bytes: false, remaining: Some(3_000) });
    r.update_pos(10, 10_000);
    assert_eq!(r.state, State::InProgress { len: Some(10), pos: 10, bytes: false, remaining: Some(0) });
    r.update_pos(11, 11_000);
    assert_eq!(r.state, State::InProgress { len: Some(10), pos: 10, bytes: false, remaining: Some(0) });
    r.update_pos(u64::MAX, 20_000);
    assert_eq!(r.state, State::InProgress { len: Some(10), pos: 10, bytes: false, remaining: Some(0) });
}

#[test]
fn update_pos_at_zero_has_no_estimate() {
    let mut r = running(Some(10), 4);
    r.update_pos(4, 4_000);
    assert_eq!(r.state, State::InProgress { len: Some(10), pos: 4, bytes: false, remaining: Some(6_000) });
    r.update_pos(0, 5_000);
    assert_eq!(r.state, State::InProgress { len: Some(10), pos: 0, bytes: false, remaining: None });
    let mut z = running(Some(0), 0);
    z.update_pos(5, 1_000);
    assert_eq!(z.state, State::InProgress { len: Some(0), pos: 0, bytes: false, remaining: None });
}

#[test]
fn update_pos_without_length_leaves_the_estimate() {
    let mut r = running(None, 0);
    r.update_pos(u64::MAX, 9);
    assert_eq!(r.state, State::InProgress { len: None, pos: u64::MAX, bytes: false, remaining: None });
    // an estimate made under a length stays when the length goes
    let mut s = running(Some(4), 0);
    s.update_pos(1, 100);
    s.set_len(None);
    s.update_pos(3, 500);
    assert_eq!(s.state, State::InProgress { len: None, pos: 3, bytes: false, remaining: Some(300) });
}

#[test]
fn inc_pos_saturates() {
    let mut r = running(None, u64::MAX - 2);
    r.inc_pos(1, 0);
    assert_eq!(r.state, State::InProgress { len: None, pos: u64::MAX - 1, bytes: false, remaining: None });
    r.inc_pos(5, 0);
    assert_eq!(r.state, State::InProgress { len: None, pos: u64::MAX, bytes: false, remaining: None });
    r.inc_pos(u64::MAX, 0);
    assert_eq!(r.state, State::InProgress { len: None, pos: u64::MAX, bytes: false, remaining: None });
    let mut l = running(Some(6), 4);
    l.inc_pos(u64::MAX, 12);
    assert_eq!(l.state, State::InProgress { len: Some(6), pos: 6, bytes: false, remaining: Some(0) });
}

#[test]
fn set_len_does_not_move_the_position() {
    let mut r = running(None, 50);
    r.set_len(Some(10));
    assert_eq!(r.state, State::InProgress { len: Some(10), pos: 50, bytes: false, remaining: None });
    r.set_len(None);
    assert_eq!(r.state, State::InProgress { len: None, pos: 50, bytes: false, remaining: None });
}

#[test]
fn only_a_report_in_progress_moves() {
    for state in [State::Completed { duration: 5 }, State::Cancelled] {
        let mut r = Report { state, ..Report::default() };
        r.set_len(Some(3));
        r.set_fmt_as_bytes(true);
        r.update_pos(2, 9);
        r.inc_pos(2, 9);
        assert_eq!(r.state, state);
    }
}

#[test]
fn set_fmt_as_bytes_sets_the_flag_only() {
    let mut r = running(Some(3), 1);
    r.set_fmt_as_bytes(true);
    assert_eq!(r.state, State::InProgress { len: Some(3), pos: 1, bytes: true, remaining: None });
    r.set_fmt_as_bytes(false);
    assert_eq!(r.state, State::InProgress { len: Some(3), pos: 1, bytes: false, remaining: None });
}

#[test]
fn finish_replaces_any_state() {
    for state in [State::default(), State::Completed { duration: 5 }, State::Cancelled] {
        let mut r = Report { state, ..Report::default() };
        r.accum(Severity::Info, "kept".into());
        r.finish(77);
        assert_eq!(r.state, State::Completed { duration: 77 });
        assert_eq!(r.accums, vec![Message { severity: Severity::Info, msg: "kept".into() }]);
    }
}

#[test]
fn accum_appends_without_dedup() {
    let mut r = Report::default();
    r.accum(Severity::Error, "same".into());
    r.accum(Severity::Error, "same".into());
    r.accum(Severity::Warn, "".into());
    assert_eq!(
        r.accums,
        vec![
            Message { severity: Severity::Error, msg: "same".into() },
            Message { severity: Severity::Error, msg: "same".into() },
            Message { severity: Severity::Warn, msg: "".into() },
        ]
    );
    assert_eq!(r.label, "");
    assert_eq!(r.state, State::default());
}
