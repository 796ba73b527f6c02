//! The public structures of progress reports, and the transitions of one
//! report.
//!
//! Times are whole nanoseconds.
use crate::Nanos;

pub use crate::severity::Severity;
use vstd::prelude::*;

verus! {

// ###### MESSAGE ##############################################################
/// An accumulation message.
#[derive(Debug, PartialEq)]
pub struct Message {
    /// The severity of the message.
    pub severity: Severity,
    /// The message.
    pub msg: String,
}

/// What a [`Message`] holds.
pub struct MessageView {
    pub severity: Severity,
    pub msg: Seq<char>,
}

impl View for Message {
    type V = MessageView;

    open spec fn view(&self) -> MessageView {
        MessageView { severity: self.severity, msg: self.msg@ }
    }
}

impl Clone for Message {
    fn clone(&self) -> (m: Self)
        ensures
            m@ == self@,
    {
        Message { severity: self.severity, msg: self.msg.clone() }
    }
}

// ###### STATE ################################################################
/// The state of the progress.
#[derive(Debug, Clone, Copy, PartialEq, Eq)]
pub enum State {
    /// The report is in progress.
    InProgress {
        /// Optional length, if empty, the report is indeterminate.
        len: Option<u64>,
        /// Current report position.
        pos: u64,
        /// The len/pos should be formatted in bytes.
        bytes: bool,
        /// Estimated nanoseconds remaining; `None` while there is no estimate.
        remaining: Option<Nanos>,
    },
    /// The progress reporter is finished.
    Completed {
        /// Nanoseconds from the creation of the report to its finish.
        duration: Nanos,
    },
    /// The progress was cancelled.
    Cancelled,
}

impl Default for State {
    fn default() -> (s: Self)
        ensures
            s == State::fresh(),
    {
        State::InProgress { len: None, pos: 0, bytes: false, remaining: None }
    }
}

/// The time that `todo` further ticks take at the pace of `done` ticks in
/// `elapsed` nanoseconds, rounded down and capped at `u64::MAX`. Without a
/// tick done there is no pace and no estimate.
pub open spec fn estimate(todo: u64, done: u64, elapsed: Nanos) -> Option<Nanos> {
    if done == 0 {
        None
    } else if todo * elapsed / (done as int) > u64::MAX {
        Some(u64::MAX)
    } else {
        Some((todo * elapsed / (done as int)) as u64)
    }
}

/// The position that a request for `pos` gives under the length `len`.
pub open spec fn clamp(len: Option<u64>, pos: u64) -> u64 {
    match len {
        Some(l) => if l < pos {
            l
        } else {
            pos
        },
        None => pos,
    }
}

/// The sum of the two, capped at `u64::MAX`.
pub open spec fn saturating_sum(a: u64, b: u64) -> u64 {
    if a + b > u64::MAX {
        u64::MAX
    } else {
        (a + b) as u64
    }
}

impl State {
    /// The state of a report that was just created.
    pub open spec fn fresh() -> State {
        State::InProgress { len: None, pos: 0, bytes: false, remaining: None }
    }

    /// The state after the length is set. Only a report in progress has one.
    pub open spec fn with_len(self, new_len: Option<u64>) -> State {
        match self {
            State::InProgress { len, pos, bytes, remaining } => State::InProgress {
                len: new_len,
                pos,
                bytes,
                remaining,
            },
            _ => self,
        }
    }

    /// The state after the byte formatting flag is set.
    pub open spec fn with_bytes(self, flag: bool) -> State {
        match self {
            State::InProgress { len, pos, bytes, remaining } => State::InProgress {
                len,
                pos,
                bytes: flag,
                remaining,
            },
            _ => self,
        }
    }

    /// The state after the position is set, `elapsed` nanoseconds after the
    /// report was created. The position never passes the length; with a
    /// length the remaining time is estimated anew.
    pub open spec fn with_pos(self, new_pos: u64, elapsed: Nanos) -> State {
        match self {
            State::InProgress { len, pos, bytes, remaining } => {
                let p = clamp(len, new_pos);
                State::InProgress {
                    len,
                    pos: p,
                    bytes,
                    remaining: match len {
                        Some(l) => estimate((l - p) as u64, p, elapsed),
                        None => remaining,
                    },
                }
            },
            _ => self,
        }
    }

    /// The state after the position is moved on by `ticks`.
    pub open spec fn advanced(self, ticks: u64, elapsed: Nanos) -> State {
        match self {
            State::InProgress { pos, .. } => self.with_pos(saturating_sum(pos, ticks), elapsed),
            _ => self,
        }
    }
}

/// Computes [`estimate`].
pub fn estimate_remaining(todo: u64, done: u64, elapsed: Nanos) -> (r: Option<Nanos>)
    ensures
        r == estimate(todo, done, elapsed),
{
    if done == 0 {
        None
    } else {
        assert(todo * elapsed <= u64::MAX * u64::MAX) by (nonlinear_arith)
            requires
                0 <= todo <= u64::MAX,
                0 <= elapsed <= u64::MAX,
        ;
        let whole: u128 = (todo as u128) * (elapsed as u128) / (done as u128);
        if whole > u64::MAX as u128 {
            Some(u64::MAX)
        } else {
            Some(whole as u64)
        }
    }
}

// ###### REPORT ###############################################################
/// The report status.
#[derive(Debug, PartialEq)]
pub struct Report {
    /// The report's label.
    pub label: String,
    /// The report's description. Leave empty if not used.
    pub desc: String,
    /// The progress state.
    pub state: State,
    /// Accumulation messages.
    pub accums: Vec<Message>,
}

/// What a [`Report`] holds.
pub struct ReportView {
    pub label: Seq<char>,
    pub desc: Seq<char>,
    pub state: State,
    pub accums: Seq<MessageView>,
}

impl ReportView {
    /// The report of a node that was just created.
    pub open spec fn fresh() -> ReportView {
        ReportView { label: Seq::empty(), desc: Seq::empty(), state: State::fresh(), accums: Seq::empty() }
    }

    /// The report with another state.
    pub open spec fn with_state(self, state: State) -> ReportView {
        ReportView { state, ..self }
    }

    /// The report with another label.
    pub open spec fn with_label(self, label: Seq<char>) -> ReportView {
        ReportView { label, ..self }
    }

    /// The report with another description.
    pub open spec fn with_desc(self, desc: Seq<char>) -> ReportView {
        ReportView { desc, ..self }
    }

    /// The report with one more message at the end.
    pub open spec fn with_message(self, severity: Severity, msg: Seq<char>) -> ReportView {
        ReportView { accums: self.accums.push(MessageView { severity, msg }), ..self }
    }
}

impl View for Report {
    type V = ReportView;

    open spec fn view(&self) -> ReportView {
        ReportView {
            label: self.label@,
            desc: self.desc@,
            state: self.state,
            accums: self.accums@.map_values(|m: Message| m@),
        }
    }
}

impl Default for Report {
    fn default() -> (r: Self)
        ensures
            r@ == ReportView::fresh(),
    {
        let r = Report {
            label: String::new(),
            desc: String::new(),
            state: State::default(),
            accums: Vec::new(),
        };
        assert(r@.accums =~= Seq::empty());
        r
    }
}

impl Clone for Report {
    fn clone(&self) -> (r: Self)
        ensures
            r@ == self@,
    {
        let mut accums: Vec<Message> = Vec::new();
        let mut i: usize = 0;
        while i < self.accums.len()
            invariant
                i <= self.accums.len(),
                accums@.len() == i,
                forall|j: int| 0 <= j < i ==> accums@[j]@ == self.accums@[j]@,
            decreases self.accums.len() - i,
        {
            accums.push(self.accums[i].clone());
            i = i + 1;
        }
        let r = Report {
            label: self.label.clone(),
            desc: self.desc.clone(),
            state: self.state,
            accums,
        };
        assert(r@.accums =~= self@.accums);
        r
    }
}

impl Report {
    /// Set the length. Only a report in progress has one.
    pub fn set_len(&mut self, len: Option<u64>)
        ensures
            final(self)@ == old(self)@.with_state(old(self)@.state.with_len(len)),
    {
        match self.state {
            State::InProgress { len: _, pos, bytes, remaining } => {
                self.state = State::InProgress { len, pos, bytes, remaining };
            },
            _ => (),
        }
    }

    /// Set whether length and position count bytes.
    pub fn set_fmt_as_bytes(&mut self, x: bool)
        ensures
            final(self)@ == old(self)@.with_state(old(self)@.state.with_bytes(x)),
    {
        match self.state {
            State::InProgress { len, pos, bytes: _, remaining } => {
                self.state = State::InProgress { len, pos, bytes: x, remaining };
            },
            _ => (),
        }
    }

    /// Move the position on by `ticks`, without passing `u64::MAX` or the
    /// length.
    pub fn inc_pos(&mut self, ticks: u64, elapsed: Nanos)
        ensures
            final(self)@ == old(self)@.with_state(old(self)@.state.advanced(ticks, elapsed)),
    {
        match self.state {
            State::InProgress { pos, .. } => self.update_pos(pos.saturating_add(ticks), elapsed),
            _ => (),
        }
    }

    /// Set the position, `elapsed` nanoseconds after the report was created.
    /// The position stops at the length; with a length the remaining time is
    /// estimated anew.
    pub fn update_pos(&mut self, pos_: u64, elapsed: Nanos)
        ensures
            final(self)@ == old(self)@.with_state(old(self)@.state.with_pos(pos_, elapsed)),
    {
        match self.state {
            State::InProgress { len, pos: _, bytes, remaining } => {
                match len {
                    Some(l) => {
                        let p = if l < pos_ {
                            l
                        } else {
                            pos_
                        };
                        self.state = State::InProgress {
                            len,
                            pos: p,
                            bytes,
                            remaining: estimate_remaining(l - p, p, elapsed),
                        };
                    },
                    None => {
                        self.state = State::InProgress { len, pos: pos_, bytes, remaining };
                    },
                }
            },
            _ => (),
        }
    }

    /// Mark the report as completed after `elapsed` nanoseconds, whatever
    /// its state was.
    pub fn finish(&mut self, elapsed: Nanos)
        ensures
            final(self)@ == old(self)@.with_state(State::Completed { duration: elapsed }),
    {
        self.state = State::Completed { duration: elapsed };
    }

    /// Add a message after those that the report holds.
    pub fn accum(&mut self, severity: Severity, msg: String)
        ensures
            final(self)@ == old(self)@.with_message(severity, msg@),
    {
        self.accums.push(Message { severity, msg });
        assert(self@.accums =~= old(self)@.accums.push(MessageView { severity, msg: msg@ }));
    }
}

// ###### PROGRESS #############################################################
/// A progress node: a report and the nodes below it.
#[derive(Debug, PartialEq)]
pub struct Progress {
    /// The report status.
    pub report: Report,
    /// Any sub nodes.
    pub children: Vec<Progress>,
}

/// What a [`Progress`] holds.
pub struct ProgressView {
    pub report: ReportView,
    pub children: Seq<ProgressView>,
}

impl Progress {
    /// What the node holds: what its report holds and what each child holds.
    pub open spec fn tree(self) -> ProgressView
        decreases self,
    {
        ProgressView {
            report: self.report@,
            children: Seq::new(
                self.children@.len(),
                |i: int|
                    if 0 <= i < self.children@.len() {
                        self.children@[i].tree()
                    } else {
                        arbitrary()
                    },
            ),
        }
    }
}

impl View for Progress {
    type V = ProgressView;

    open spec fn view(&self) -> ProgressView {
        self.tree()
    }
}

impl Clone for Progress {
    fn clone(&self) -> (p: Self)
        ensures
            p@ == self@,
        decreases self,
    {
        let mut children: Vec<Progress> = Vec::new();
        let mut i: usize = 0;
        while i < self.children.len()
            invariant
                i <= self.children.len(),
                children@.len() == i,
                forall|j: int| 0 <= j < i ==> children@[j]@ == self.children@[j]@,
            decreases self.children.len() - i,
        {
            children.push(self.children[i].clone());
            i = i + 1;
        }
        let p = Progress { report: self.report.clone(), children };
        proof {
            lemma_progress_view(p);
            lemma_progress_view(*self);
            assert(p@.children =~= self@.children);
        }
        p
    }
}

/// What a sequence of progress nodes holds.
pub open spec fn progress_views(v: Seq<Progress>) -> Seq<ProgressView> {
    Seq::new(v.len(), |i: int| v[i]@)
}

/// A progress node holds its report and what its children hold.
pub proof fn lemma_progress_view(p: Progress)
    ensures
        p@.report == p.report@,
        p@.children == progress_views(p.children@),
{
}

} // verus!
