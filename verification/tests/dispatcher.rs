use howudoin::consumers::{Listener, Noop};
use howudoin::report::Report;
use howudoin::rx::Reply;
use howudoin::{new, new_root, Consume, Controller, Dispatcher, Id, Tx, DEFAULT_DEBOUNCE};

/// Writes down what it is told.
struct Recorder {
    calls: Vec<String>,
    trees: Vec<usize>,
}

impl Recorder {
    fn new() -> Self {
        Recorder { calls: vec![], trees: vec![] }
    }
}

impl Consume for Recorder {
    fn rpt(&mut self, report: &Report, id: Id, parent: Option<Id>, controller: &Controller) {
        self.calls.push(format!("rpt {} {:?} {}", id, parent, report.label));
        self.trees.push(controller.build_progress_tree().len());
    }

    fn closed(&mut self, id: Id) {
        self.calls.push(format!("closed {}", id));
    }
}

#[test]
fn default_debounce_is_fifty_milliseconds() {
    assert_eq!(DEFAULT_DEBOUNCE, 50_000_000);
    assert_eq!(Noop::default().0, 50_000_000);
    assert_eq!(Noop::default().debounce(), 50_000_000);
    assert_eq!(Noop(0).debounce(), 0);
    assert_eq!(Listener::new(Noop(7)).debounce(), 7);
    assert_eq!(Listener::new(Recorder::new()).debounce(), 50_000_000);
    assert_eq!(Recorder::new().debounce(), 50_000_000);
}

#[test]
fn timeout_is_the_debounce_unless_zero() {
    assert_eq!(Dispatcher::new(0, 0).timeout(), None);
    assert_eq!(Dispatcher::new(1, 0).timeout(), Some(1));
    assert_eq!(Dispatcher::new(DEFAULT_DEBOUNCE, 5).timeout(), Some(50_000_000));
}

#[test]
fn due_when_the_debounce_has_passed() {
    let d = Dispatcher::new(10, 100);
    assert!(!d.due(100));
    assert!(!d.due(109));
    assert!(d.due(110));
    assert!(d.due(u64::MAX));
    // a clock that went back counts as no time passed
    assert!(!d.due(0));
    // with no debounce every moment is due
    let z = Dispatcher::new(0, 100);
    assert!(z.due(100));
    assert!(z.due(0));
}

#[test]
fn restart_counts_from_the_new_time() {
    let mut d = Dispatcher::new(10, 0);
    assert!(d.due(15));
    d.restart(15);
    assert!(!d.due(15));
    assert!(!d.due(24));
    assert!(d.due(25));
}

#[test]
fn pop_gives_the_least_changed_first() {
    let mut d = Dispatcher::new(0, 0);
    assert_eq!(d.pop(), None);
    let a = Tx::from_reply(Some(d.receive(new(), 0)));
    let b = Tx::from_reply(Some(d.receive(new(), 0)));
    let c = Tx::from_reply(Some(d.receive(new(), 0)));
    // touched in the order c, a, c, b
    d.receive(c.inc(), 0);
    d.receive(a.inc(), 0);
    d.receive(c.inc(), 0);
    d.receive(b.inc(), 0);
    assert_eq!(d.pop(), Some(0));
    assert_eq!(d.pop(), Some(1));
    assert_eq!(d.pop(), Some(2));
    assert_eq!(d.pop(), None);
    assert_eq!(d.pop(), None);
}

#[test]
fn queries_change_nothing() {
    let mut d = Dispatcher::new(0, 0);
    assert_eq!(d.receive(howudoin::fetch(), 0), Reply::Progress(vec![]));
    assert_eq!(d.receive(howudoin::cancelled(), 0), Reply::Cancelled(false));
    assert_eq!(d.receive(howudoin::cancel(), 0), Reply::Nothing);
    assert_eq!(d.receive(howudoin::reset(), 0), Reply::Nothing);
    assert_eq!(d.pop(), None);
}

#[test]
fn deliver_tells_each_changed_node_once_in_ascending_order() {
    let mut d = Dispatcher::new(0, 0);
    let mut rec = Listener::new(Recorder::new());
    let a = Tx::from_reply(Some(d.receive(new(), 0)));
    let b = Tx::from_reply(Some(d.receive(new(), 0)));
    let c = Tx::from_reply(Some(d.receive(new_root(), 0)));
    d.receive(c.label("c".into()), 0);
    d.receive(b.label("b".into()), 0);
    d.receive(a.label("a".into()), 0);
    d.receive(b.label("bb".into()), 0);
    d.deliver(&mut rec);
    assert_eq!(rec.consumer().calls, vec!["rpt 0 None a", "rpt 1 Some(0) bb", "rpt 2 None c"]);
    assert_eq!(rec.consumer().trees, vec![2, 2, 2]);
    // nothing is left
    assert_eq!(d.pop(), None);
    d.deliver(&mut rec);
    assert_eq!(rec.consumer().calls.len(), 3);
}

#[test]
fn deliver_tells_of_closed_nodes() {
    let mut d = Dispatcher::new(0, 0);
    let mut rec = Listener::new(Recorder::new());
    let a = Tx::from_reply(Some(d.receive(new(), 0)));
    let b = Tx::from_reply(Some(d.receive(new(), 0)));
    d.receive(a.label("a".into()), 0);
    d.receive(b.close(), 0);
    // a node that never was, closed
    d.receive(Tx::from_reply(Some(Reply::Id(9))).close(), 0);
    // a message to a node that is not live marks it all the same
    d.receive(Tx::from_reply(Some(Reply::Id(5))).inc(), 0);
    d.deliver(&mut rec);
    assert_eq!(rec.consumer().calls, vec!["rpt 0 None a", "closed 1", "closed 5", "closed 9"]);
    // created and closed within one window: only the close is told
    let e = Tx::from_reply(Some(d.receive(new(), 0)));
    d.receive(e.close(), 0);
    d.deliver(&mut rec);
    assert_eq!(rec.consumer().calls[4..], ["closed 2"]);
}

#[test]
fn noop_consumer_takes_everything() {
    let mut d = Dispatcher::new(Noop::default().debounce(), 0);
    let mut noop = Listener::new(Noop::default());
    let a = Tx::from_reply(Some(d.receive(new(), 0)));
    d.receive(a.close(), 1);
    d.receive(new(), 2);
    d.deliver(&mut noop);
    assert_eq!(noop.consumer().0, 50_000_000);
    assert_eq!(noop.into_inner().0, 50_000_000);
    assert_eq!(d.pop(), None);
    assert_eq!(d.receive(howudoin::fetch(), 3), Reply::Progress(vec![howudoin::report::Progress {
        report: Report::default(),
        children: vec![],
    }]));
}

#[test]
fn zero_debounce_tells_of_each_message_at_once() {
    let mut d = Dispatcher::new(0, 0);
    let mut rec = Listener::new(Recorder::new());
    assert_eq!(d.timeout(), None);
    let a = Tx::from_reply(Some(d.receive(new(), 3)));
    assert!(d.due(3));
    d.deliver(&mut rec);
    assert_eq!(rec.consumer().calls, vec!["rpt 0 None "]);
    d.receive(a.label("a".into()), 3);
    assert!(d.due(3));
    d.deliver(&mut rec);
    assert_eq!(rec.consumer().calls[1..], ["rpt 0 None a"]);
    // a query touches no node: nothing is told after it
    d.receive(howudoin::fetch(), 3);
    d.receive(howudoin::cancelled(), 3);
    d.receive(howudoin::cancel(), 3);
    assert!(d.due(3));
    d.deliver(&mut rec);
    assert_eq!(rec.consumer().calls.len(), 2);
    d.receive(a.close(), 4);
    d.deliver(&mut rec);
    assert_eq!(rec.consumer().calls[2..], ["closed 0"]);
}

#[test]
fn the_latest_state_is_what_is_told() {
    let mut d = Dispatcher::new(10, 0);
    let mut rec = Listener::new(Recorder::new());
    let a = Tx::from_reply(Some(d.receive(new(), 0)));
    let b = Tx::from_reply(Some(d.receive(new(), 1)));
    d.receive(a.label("first".into()), 2);
    d.receive(b.label("b".into()), 3);
    d.receive(a.label("second".into()), 4);
    d.receive(a.label("third".into()), 5);
    assert!(!d.due(9));
    assert!(d.due(10));
    d.deliver(&mut rec);
    assert_eq!(rec.consumer().calls, vec!["rpt 0 None third", "rpt 1 Some(0) b"]);
}

#[test]
fn listener_passes_each_notice_on() {
    let mut c = Controller::default();
    let a = Tx::from_reply(Some(c.process(new(), 0).reply));
    c.process(a.label("a".into()), 0);
    let mut l = Listener::new(Recorder::new());
    let (report, parent) = c.get(a.id()).unwrap();
    l.rpt(report, a.id(), parent, &c);
    l.closed(3);
    l.rpt(report, a.id(), parent, &c);
    assert_eq!(l.consumer().calls, vec!["rpt 0 None a", "closed 3", "rpt 0 None a"]);
    assert_eq!(l.consumer().trees, vec![1, 1]);
    let rec = l.into_inner();
    assert_eq!(rec.calls.len(), 3);
}
