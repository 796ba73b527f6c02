use howudoin::report::{Message, Progress, Report, Severity, State};
use howudoin::rx::{Outcome, Reply};
use howudoin::tx::{fetched, flagged};
use howudoin::{cancel, cancelled, fetch, new, new_root, new_with_parent, reset, Controller, Tx};

/// A producer on one side and a controller on the other, with a clock that
/// moves on by one millisecond with each message.
struct Line {
    controller: Option<Controller>,
    clock: u64,
}

impl Line {
    fn init() -> Self {
        Line { controller: Some(Controller::default()), clock: 0 }
    }

    fn disabled() -> Self {
        Line { controller: None, clock: 0 }
    }

    fn send(&mut self, payload: howudoin::Payload) -> Option<Reply> {
        self.clock += 1_000_000;
        let now = self.clock;
        self.controller.as_mut().map(|c| c.process(payload, now).reply)
    }

    fn new(&mut self) -> Tx {
        Tx::from_reply(self.send(new()))
    }

    fn fetch(&mut self) -> Option<Vec<Progress>> {
        fetched(self.send(fetch()))
    }

    fn cancelled(&mut self) -> Option<bool> {
        flagged(self.send(cancelled()))
    }
}

fn reset_rems(xs: Vec<Progress>) -> Vec<Progress> {
    xs.into_iter()
        .map(|mut x| {
            match &mut x.report.state {
                State::InProgress { remaining, .. } => *remaining = Some(1),
                State::Completed { duration } => *duration = 1,
                _ => (),
            }

            x.children = reset_rems(x.children);
            x
        })
        .collect()
}

fn in_progress() -> State {
    State::InProgress { len: None, pos: 0, bytes: false, remaining: None }
}

fn leaf(label: &str) -> Progress {
    Progress {
        report: Report { label: label.into(), desc: "".into(), state: in_progress(), accums: vec![] },
        children: vec![],
    }
}

#[test]
fn uninit_fetch() {
    let mut line = Line::disabled();
    let f = line.fetch();
    assert_eq!(f, None);
}

#[test]
fn report_creation_smoke_test() {
    let mut line = Line::init();

    let a = line.new();
    line.send(a.label("a".into()));
    let b = line.new();
    line.send(b.label("b".into()));
    let c = Tx::from_reply(line.send(new_with_parent(a.id())));
    line.send(c.label("c".into()));
    let d = Tx::from_reply(line.send(new_root()));
    line.send(d.label("d".into()));

    let f = line.fetch();
    assert_eq!(
        f,
        Some(vec![
            Progress {
                report: Report {
                    label: "a".into(),
                    desc: "".into(),
                    state: State::InProgress { len: None, pos: 0, bytes: false, remaining: None },
                    accums: vec![]
                },
                children: vec![
                    Progress {
                        report: Report {
                            label: "b".into(),
                            desc: "".into(),
                            state: State::InProgress {
                                len: None,
                                pos: 0,
                                bytes: false,
                                remaining: None,
                            },
                            accums: vec![]
                        },
                        children: vec![]
                    },
                    Progress {
                        report: Report {
                            label: "c".into(),
                            desc: "".into(),
                            state: State::InProgress {
                                len: None,
                                pos: 0,
                                bytes: false,
                                remaining: None,
                            },
                            accums: vec![]
                        },
                        children: vec![]
                    }
                ]
            },
            Progress {
                report: Report {
                    label: "d".into(),
                    desc: "".into(),
                    state: State::InProgress { len: None, pos: 0, bytes: false, remaining: None },
                    accums: vec![]
                },

                children: vec![]
            }
        ])
    );
}

#[test]
fn tx_api() {
    let mut line = Line::init();

    let a = line.new();
    line.send(a.label("a".into()));
    line.send(a.set_len(Some(100)));
    line.send(a.fmt_as_bytes(true));
    line.send(a.desc("foo bar".into()));

    line.send(a.inc());
    line.send(a.inc());
    line.send(a.inc_by(4));
    line.send(a.add_err("errrr".into()));

    let f = reset_rems(line.fetch().unwrap());
    assert_eq!(
        f,
        vec![Progress {
            report: Report {
                label: "a".into(),
                desc: "foo bar".into(),
                state: State::InProgress { len: Some(100), pos: 6, bytes: true, remaining: Some(1) },
                accums: vec![Message { severity: Severity::Error, msg: "errrr".into() }]
            },
            children: vec![]
        }]
    );

    line.send(a.set_pos(50));
    line.send(a.add_warn("war".into()));

    let f = reset_rems(line.fetch().unwrap());
    assert_eq!(
        f,
        vec![Progress {
            report: Report {
                label: "a".into(),
                desc: "foo bar".into(),
                state: State::InProgress { len: Some(100), pos: 50, bytes: true, remaining: Some(1) },
                accums: vec![
                    Message { severity: Severity::Error, msg: "errrr".into() },
                    Message { severity: Severity::Warn, msg: "war".into() }
                ]
            },
            children: vec![]
        }]
    );

    line.send(a.add_info("yo".into()));
    line.send(a.finish());

    let f = reset_rems(line.fetch().unwrap());
    assert_eq!(
        f,
        vec![Progress {
            report: Report {
                label: "a".into(),
                desc: "foo bar".into(),
                state: State::Completed { duration: 1 },
                accums: vec![
                    Message { severity: Severity::Error, msg: "errrr".into() },
                    Message { severity: Severity::Warn, msg: "war".into() },
                    Message { severity: Severity::Info, msg: "yo".into() }
                ]
            },
            children: vec![]
        }]
    );

    line.send(a.close());

    let f = line.fetch();
    assert_eq!(f, Some(vec![]));
}

#[test]
fn cancel_test() {
    let mut line = Line::disabled();

    line.send(cancel());
    assert_eq!(line.cancelled(), None);

    let mut line = Line::init();

    assert_eq!(line.cancelled(), Some(false));

    let a = line.new();

    let answer = line.send(cancelled());
    assert_eq!(a.cancelled(answer), false);

    line.send(cancel());

    let answer = line.send(cancelled());
    assert_eq!(a.cancelled(answer), true);
    assert_eq!(line.cancelled(), Some(true));
}

#[test]
fn reset_test() {
    let mut line = Line::init();

    let a = line.new();
    line.send(a.label("a".into()));
    let f = line.fetch().unwrap();
    assert_eq!(
        f,
        vec![Progress { report: Report { label: "a".into(), ..Report::default() }, children: vec![] }]
    );

    line.send(reset());

    let f = line.fetch();
    assert_eq!(f, Some(vec![]));
}

#[test]
fn exact_times_in_the_snapshot() {
    // with the clock of `Line`: created at 1 ms, each message 1 ms later
    let mut line = Line::init();
    let a = line.new(); // 1 ms
    line.send(a.set_len(Some(100))); // 2 ms
    line.send(a.inc()); // 3 ms: 1 of 100 after 2 ms, 99 to go at 2 ms each
    assert_eq!(
        line.fetch().unwrap()[0].report.state,
        State::InProgress { len: Some(100), pos: 1, bytes: false, remaining: Some(198_000_000) }
    );
    line.send(a.set_pos(50)); // 5 ms: 50 of 100 after 4 ms
    assert_eq!(
        line.fetch().unwrap()[0].report.state,
        State::InProgress { len: Some(100), pos: 50, bytes: false, remaining: Some(4_000_000) }
    );
    line.send(a.finish()); // 7 ms: 6 ms after the creation
    assert_eq!(line.fetch().unwrap()[0].report.state, State::Completed { duration: 6_000_000 });
}

#[test]
fn outcome_names_the_changed_node_and_the_reply() {
    let mut c = Controller::default();
    assert_eq!(c.process(new(), 0), Outcome { changed: Some(0), reply: Reply::Id(0) });
    assert_eq!(c.process(new_root(), 0), Outcome { changed: Some(1), reply: Reply::Id(1) });
    assert_eq!(c.process(new_with_parent(0), 0), Outcome { changed: Some(2), reply: Reply::Id(2) });
    let a = Tx::from_reply(Some(Reply::Id(0)));
    assert_eq!(c.process(a.label("x".into()), 0), Outcome { changed: Some(0), reply: Reply::Nothing });
    assert_eq!(c.process(a.desc("x".into()), 0), Outcome { changed: Some(0), reply: Reply::Nothing });
    assert_eq!(c.process(a.set_len(None), 0), Outcome { changed: Some(0), reply: Reply::Nothing });
    assert_eq!(c.process(a.fmt_as_bytes(true), 0), Outcome { changed: Some(0), reply: Reply::Nothing });
    assert_eq!(c.process(a.inc(), 0), Outcome { changed: Some(0), reply: Reply::Nothing });
    assert_eq!(c.process(a.set_pos(3), 0), Outcome { changed: Some(0), reply: Reply::Nothing });
    assert_eq!(c.process(a.add_info("x".into()), 0), Outcome { changed: Some(0), reply: Reply::Nothing });
    assert_eq!(c.process(a.finish(), 0), Outcome { changed: Some(0), reply: Reply::Nothing });
    assert_eq!(c.process(cancelled(), 0), Outcome { changed: None, reply: Reply::Cancelled(false) });
    assert_eq!(c.process(cancel(), 0), Outcome { changed: None, reply: Reply::Nothing });
    assert_eq!(c.process(cancelled(), 0), Outcome { changed: None, reply: Reply::Cancelled(true) });
    // a close marks the node as changed, live or not
    assert_eq!(c.process(a.close(), 0), Outcome { changed: Some(0), reply: Reply::Nothing });
    assert_eq!(c.process(a.close(), 0), Outcome { changed: Some(0), reply: Reply::Nothing });
    assert_eq!(c.process(reset(), 0), Outcome { changed: None, reply: Reply::Nothing });
    assert_eq!(c.process(fetch(), 0), Outcome { changed: None, reply: Reply::Progress(vec![]) });
}

#[test]
fn implicit_nesting_follows_the_last_report() {
    let mut line = Line::init();
    let a = line.new();
    let b = line.new();
    let c = line.new();
    for (tx, l) in [(a, "a"), (b, "b"), (c, "c")] {
        line.send(tx.label(l.into()));
    }
    let mut inner = leaf("b");
    inner.children = vec![leaf("c")];
    let mut outer = leaf("a");
    outer.children = vec![inner];
    assert_eq!(line.fetch(), Some(vec![outer]));
    assert_eq!((a.id(), b.id(), c.id()), (0, 1, 2));
}

#[test]
fn new_root_ignores_the_cursor() {
    let mut line = Line::init();
    let a = line.new();
    line.send(a.label("a".into()));
    let r = Tx::from_reply(line.send(new_root()));
    line.send(r.label("r".into()));
    // the root is the last report now: the next one nests below it
    let n = line.new();
    line.send(n.label("n".into()));
    let mut root = leaf("r");
    root.children = vec![leaf("n")];
    assert_eq!(line.fetch(), Some(vec![leaf("a"), root]));
}

#[test]
fn closed_parent_gives_a_root() {
    let mut line = Line::init();
    let a = line.new();
    line.send(a.label("a".into()));
    line.send(a.close());
    assert_eq!(line.fetch(), Some(vec![]));
    let c = Tx::from_reply(line.send(new_with_parent(a.id())));
    line.send(c.label("c".into()));
    assert_eq!(line.fetch(), Some(vec![leaf("c")]));
    // a parent that never was is the same
    let d = Tx::from_reply(line.send(new_with_parent(99)));
    line.send(d.label("d".into()));
    assert_eq!(line.fetch(), Some(vec![leaf("c"), leaf("d")]));
}

#[test]
fn close_clears_the_cursor() {
    let mut line = Line::init();
    let a = line.new();
    line.send(a.label("a".into()));
    line.send(a.close());
    let b = line.new();
    line.send(b.label("b".into()));
    assert_eq!(line.fetch(), Some(vec![leaf("b")]));
}

#[test]
fn close_twice_is_close_once() {
    let mut line = Line::init();
    let a = line.new();
    let b = Tx::from_reply(line.send(new_root()));
    line.send(b.label("b".into()));
    line.send(a.close());
    let once = line.fetch();
    line.send(a.close());
    assert_eq!(line.fetch(), once);
    assert_eq!(once, Some(vec![leaf("b")]));
}

#[test]
fn closed_child_is_skipped_and_its_children_with_it() {
    let mut line = Line::init();
    let a = line.new();
    line.send(a.label("a".into()));
    let b = line.new();
    line.send(b.label("b".into()));
    let c = line.new();
    line.send(c.label("c".into()));
    let d = Tx::from_reply(line.send(new_with_parent(a.id())));
    line.send(d.label("d".into()));
    line.send(b.close());
    // `c` is still live, but it is listed only below `b`
    let mut outer = leaf("a");
    outer.children = vec![leaf("d")];
    assert_eq!(line.fetch(), Some(vec![outer]));
    // a message for the orphan is applied all the same
    assert_eq!(
        line.controller.as_mut().unwrap().process(c.label("cc".into()), 0),
        Outcome { changed: Some(2), reply: Reply::Nothing }
    );
    assert_eq!(line.controller.as_ref().unwrap().get(c.id()).map(|(r, p)| (r.label.clone(), p)), Some(("cc".to_string(), Some(1))));
}

#[test]
fn messages_to_missing_reports_are_ignored() {
    let mut line = Line::init();
    let a = line.new();
    line.send(a.label("a".into()));
    let ghost = Tx::from_reply(Some(Reply::Id(7)));
    line.send(ghost.label("x".into()));
    line.send(ghost.desc("x".into()));
    line.send(ghost.set_len(Some(1)));
    line.send(ghost.fmt_as_bytes(true));
    line.send(ghost.inc());
    line.send(ghost.set_pos(1));
    line.send(ghost.add_err("x".into()));
    line.send(ghost.finish());
    line.send(ghost.close());
    assert_eq!(line.fetch(), Some(vec![leaf("a")]));
}

#[test]
fn unanswered_requests_fall_back() {
    assert_eq!(Tx::from_reply(None).id(), 0);
    assert_eq!(Tx::from_reply(Some(Reply::Nothing)).id(), 0);
    assert_eq!(Tx::from_reply(Some(Reply::Id(5))).id(), 5);
    assert_eq!(fetched(None), None);
    assert_eq!(fetched(Some(Reply::Id(1))), None);
    assert_eq!(fetched(Some(Reply::Progress(vec![]))), Some(vec![]));
    assert_eq!(flagged(None), None);
    assert_eq!(flagged(Some(Reply::Nothing)), None);
    assert_eq!(flagged(Some(Reply::Cancelled(true))), Some(true));
    let a = Tx::from_reply(None);
    assert!(!a.cancelled(None));
    assert!(!a.cancelled(Some(Reply::Cancelled(false))));
    assert!(a.cancelled(Some(Reply::Cancelled(true))));
}

#[test]
fn cancellation_survives_everything_but_a_reset() {
    let mut line = Line::init();
    let a = line.new();
    line.send(cancel());
    line.send(a.label("a".into()));
    line.send(a.inc());
    let b = line.new();
    line.send(b.finish());
    line.send(a.close());
    line.send(cancel());
    assert_eq!(line.cancelled(), Some(true));
    line.send(reset());
    assert_eq!(line.cancelled(), Some(false));
    // and the counter starts again
    assert_eq!(line.new().id(), 0);
}

#[test]
fn messages_keep_their_order_among_other_changes() {
    let mut line = Line::init();
    let a = line.new();
    let b = line.new();
    line.send(a.add_info("one".into()));
    line.send(a.set_len(Some(3)));
    line.send(b.add_err("other".into()));
    line.send(a.add_err("two".into()));
    line.send(a.inc());
    line.send(a.add_err("two".into()));
    line.send(a.finish());
    line.send(a.add_warn("three".into()));
    let f = line.fetch().unwrap();
    assert_eq!(
        f[0].report.accums,
        vec![
            Message { severity: Severity::Info, msg: "one".into() },
            Message { severity: Severity::Error, msg: "two".into() },
            Message { severity: Severity::Error, msg: "two".into() },
            Message { severity: Severity::Warn, msg: "three".into() },
        ]
    );
    assert_eq!(f[0].children[0].report.accums, vec![Message { severity: Severity::Error, msg: "other".into() }]);
}

#[test]
fn three_increments_by_six_and_one_error() {
    let mut line = Line::init();
    let a = line.new();
    line.send(a.set_len(Some(100)));
    line.send(a.inc());
    line.send(a.inc());
    line.send(a.inc_by(4));
    line.send(a.add_err("errrr".into()));
    let f = line.fetch().unwrap();
    assert_eq!(f.len(), 1);
    match f[0].report.state {
        State::InProgress { len, pos, bytes, .. } => {
            assert_eq!((len, pos, bytes), (Some(100), 6, false));
        }
        _ => panic!("the report is in progress"),
    }
    assert_eq!(f[0].report.accums, vec![Message { severity: Severity::Error, msg: "errrr".into() }]);
}

#[test]
fn finish_keeps_the_messages_and_close_empties_the_tree() {
    let mut line = Line::init();
    let a = line.new();
    line.send(a.add_err("errrr".into()));
    line.send(a.add_info("yo".into()));
    line.send(a.finish());
    let f = line.fetch().unwrap();
    // created at 1 ms, finished at 4 ms
    assert_eq!(f[0].report.state, State::Completed { duration: 3_000_000 });
    assert_eq!(
        f[0].report.accums,
        vec![
            Message { severity: Severity::Error, msg: "errrr".into() },
            Message { severity: Severity::Info, msg: "yo".into() },
        ]
    );
    line.send(a.close());
    assert_eq!(line.fetch(), Some(vec![]));
}

#[test]
fn set_pos_through_the_controller_stops_at_the_length() {
    let mut c = Controller::default();
    let a = Tx::from_reply(Some(c.process(new(), 0).reply));
    c.process(a.set_len(Some(10)), 0);
    c.process(a.set_pos(25), 5);
    assert_eq!(
        c.get(a.id()).map(|(r, _)| r.state),
        Some(State::InProgress { len: Some(10), pos: 10, bytes: false, remaining: Some(0) })
    );
    c.process(a.set_pos(4), 8);
    assert_eq!(
        c.get(a.id()).map(|(r, _)| r.state),
        Some(State::InProgress { len: Some(10), pos: 4, bytes: false, remaining: Some(12) })
    );
    c.process(a.set_len(None), 9);
    c.process(a.inc_by(u64::MAX), 9);
    c.process(a.inc(), 9);
    assert_eq!(
        c.get(a.id()).map(|(r, _)| r.state),
        Some(State::InProgress { len: None, pos: u64::MAX, bytes: false, remaining: Some(12) })
    );
}

#[test]
fn a_clock_that_went_back_counts_as_no_time() {
    let mut c = Controller::default();
    let a = Tx::from_reply(Some(c.process(new(), 100).reply));
    c.process(a.set_len(Some(4)), 100);
    c.process(a.inc(), 50);
    assert_eq!(
        c.get(a.id()).map(|(r, _)| r.state),
        Some(State::InProgress { len: Some(4), pos: 1, bytes: false, remaining: Some(0) })
    );
    c.process(a.finish(), 99);
    assert_eq!(c.get(a.id()).map(|(r, _)| r.state), Some(State::Completed { duration: 0 }));
}

#[test]
fn get_gives_report_and_parent_of_live_nodes() {
    let mut c = Controller::default();
    let a = Tx::from_reply(Some(c.process(new(), 0).reply));
    let b = Tx::from_reply(Some(c.process(new(), 0).reply));
    c.process(b.label("b".into()), 0);
    assert_eq!(c.get(a.id()).map(|(r, p)| (r.clone(), p)), Some((Report::default(), None)));
    assert_eq!(
        c.get(b.id()).map(|(r, p)| (r.clone(), p)),
        Some((Report { label: "b".into(), ..Report::default() }, Some(0)))
    );
    assert!(c.get(2).is_none());
    c.process(a.close(), 0);
    assert!(c.get(a.id()).is_none());
    assert!(c.get(b.id()).is_some());
}

#[test]
fn producer_constants() {
    assert_eq!(howudoin::tx::FALLBACK_ID, 0);
    assert_eq!(howudoin::tx::ANSWER_TIMEOUT, 500_000_000);
}
