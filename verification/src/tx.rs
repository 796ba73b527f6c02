//! The producer's side: each call of a producer as the message that goes to
//! the controller, and each answer as what the producer takes from it.
use crate::report::{progress_views, Progress, Severity};
use crate::rx::{Reply, ReplyView};
use crate::{Id, Nanos, Payload, PayloadView};
use vstd::prelude::*;

verus! {

/// The identifier that a producer works with when its request for a new
/// report was not answered.
pub const FALLBACK_ID: Id = 0;

/// How long a producer waits for the answer to a request, in nanoseconds:
/// half a second. After that it goes on without one.
pub const ANSWER_TIMEOUT: Nanos = 500_000_000;

/// Ask for a new progress reporter.
///
/// The reporter's parent will be the report that was added _last_ (if one
/// exists).
pub fn new() -> (p: Payload)
    ensures
        p@ == PayloadView::AddReport(None),
{
    Payload::AddReport(None)
}

/// Ask for a new progress reporter under a parent.
pub fn new_with_parent(parent: Id) -> (p: Payload)
    ensures
        p@ == PayloadView::AddReport(Some(parent)),
{
    Payload::AddReport(Some(parent))
}

/// Ask for a new progress reporter at the root level.
pub fn new_root() -> (p: Payload)
    ensures
        p@ == PayloadView::AddRootReport,
{
    Payload::AddRootReport
}

/// Ask for the progress report tree.
pub fn fetch() -> (p: Payload)
    ensures
        p@ == PayloadView::Fetch,
{
    Payload::Fetch
}

/// Flag for cancellation.
pub fn cancel() -> (p: Payload)
    ensures
        p@ == PayloadView::Cancel,
{
    Payload::Cancel
}

/// Ask for the cancellation flag.
pub fn cancelled() -> (p: Payload)
    ensures
        p@ == PayloadView::Cancelled,
{
    Payload::Cancelled
}

/// Reset the controller: all the tracked progress goes, the consumer loop
/// stays alive.
pub fn reset() -> (p: Payload)
    ensures
        p@ == PayloadView::Reset,
{
    Payload::Reset
}

/// The tree that an answer to [`fetch`] carries. Without an answer, or with
/// an answer to something else, there is none.
pub fn fetched(answer: Option<Reply>) -> (r: Option<Vec<Progress>>)
    ensures
        match r {
            Some(tree) => answer matches Some(a) && a@ == ReplyView::Progress(progress_views(tree@)),
            None => !(answer matches Some(Reply::Progress(_))),
        },
{
    match answer {
        Some(Reply::Progress(tree)) => Some(tree),
        _ => None,
    }
}

/// The flag that an answer to [`cancelled`] carries. Without an answer, or
/// with an answer to something else, there is none.
pub fn flagged(answer: Option<Reply>) -> (r: Option<bool>)
    ensures
        r == (match answer {
            Some(Reply::Cancelled(flag)) => Some(flag),
            _ => None,
        }),
{
    match answer {
        Some(Reply::Cancelled(flag)) => Some(flag),
        _ => None,
    }
}

/// The progress reporter transmitter: the producer's handle on one report.
#[derive(Copy, Clone, PartialEq, Eq, Debug, Structural)]
pub struct Tx {
    id: Id,
}

impl Tx {
    /// The identifier that the handle holds.
    pub closed spec fn spec_id(self) -> Id {
        self.id
    }

    /// The handle for the report that an answer to [`new`],
    /// [`new_with_parent`] or [`new_root`] names. Without an answer the
    /// handle holds [`FALLBACK_ID`]: the producer goes on either way.
    pub fn from_reply(answer: Option<Reply>) -> (tx: Tx)
        ensures
            tx.spec_id() == (match answer {
                Some(Reply::Id(id)) => id,
                _ => FALLBACK_ID,
            }),
    {
        match answer {
            Some(Reply::Id(id)) => Tx { id },
            _ => Tx { id: FALLBACK_ID },
        }
    }

    /// The distinct ID.
    #[verifier::when_used_as_spec(spec_id)]
    pub fn id(self) -> (id: Id)
        ensures
            id == self.spec_id(),
    {
        self.id
    }

    /// Set the label/name of the report.
    pub fn label(self, label: String) -> (p: Payload)
        ensures
            p@ == PayloadView::SetLabel(self.id(), label@),
    {
        Payload::SetLabel(self.id, label)
    }

    /// Set an upper bound on the progress.
    ///
    /// If the progress is indeterminate, `None` can be specified.
    pub fn set_len(self, len: Option<u64>) -> (p: Payload)
        ensures
            p@ == PayloadView::SetLen(self.id(), len),
    {
        Payload::SetLen(self.id, len)
    }

    /// Flag to format the position as bytes.
    pub fn fmt_as_bytes(self, fmt_as_bytes: bool) -> (p: Payload)
        ensures
            p@ == PayloadView::SetFmtBytes(self.id(), fmt_as_bytes),
    {
        Payload::SetFmtBytes(self.id, fmt_as_bytes)
    }

    /// Set the report message.
    pub fn desc(self, desc: String) -> (p: Payload)
        ensures
            p@ == PayloadView::SetDesc(self.id(), desc@),
    {
        Payload::SetDesc(self.id, desc)
    }

    /// Increment the report 1 position.
    pub fn inc(self) -> (p: Payload)
        ensures
            p@ == PayloadView::Inc(self.id(), 1),
    {
        Payload::Inc(self.id, 1)
    }

    /// Increment the report position by `delta`.
    pub fn inc_by(self, delta: u64) -> (p: Payload)
        ensures
            p@ == PayloadView::Inc(self.id(), delta),
    {
        Payload::Inc(self.id, delta)
    }

    /// Set the report position.
    pub fn set_pos(self, pos: u64) -> (p: Payload)
        ensures
            p@ == PayloadView::SetPos(self.id(), pos),
    {
        Payload::SetPos(self.id, pos)
    }

    /// Add an error message.
    pub fn add_err(self, msg: String) -> (p: Payload)
        ensures
            p@ == PayloadView::Accum(self.id(), Severity::Error, msg@),
    {
        self.add_accum(Severity::Error, msg)
    }

    /// Add an warning message.
    pub fn add_warn(self, msg: String) -> (p: Payload)
        ensures
            p@ == PayloadView::Accum(self.id(), Severity::Warn, msg@),
    {
        self.add_accum(Severity::Warn, msg)
    }

    /// Add an information message.
    pub fn add_info(self, msg: String) -> (p: Payload)
        ensures
            p@ == PayloadView::Accum(self.id(), Severity::Info, msg@),
    {
        self.add_accum(Severity::Info, msg)
    }

    /// Add an accumulation message.
    ///
    /// These messages are accumulated against a progress report, and
    /// consumers can display them for additional information.
    pub fn add_accum(self, severity: Severity, msg: String) -> (p: Payload)
        ensures
            p@ == PayloadView::Accum(self.id(), severity, msg@),
    {
        Payload::Accum(self.id, severity, msg)
    }

    /// Whether an answer to [`cancelled`] says that cancellation was asked
    /// for. Without an answer it was not.
    pub fn cancelled(self, answer: Option<Reply>) -> (b: bool)
        ensures
            b == (answer matches Some(Reply::Cancelled(true))),
    {
        match flagged(answer) {
            Some(flag) => flag,
            None => false,
        }
    }

    /// Mark this report as finished but should be kept displayed.
    pub fn finish(self) -> (p: Payload)
        ensures
            p@ == PayloadView::Finish(self.id()),
    {
        Payload::Finish(self.id)
    }

    /// Mark this report as finished and should be removed from display.
    pub fn close(self) -> (p: Payload)
        ensures
            p@ == PayloadView::Close(self.id()),
    {
        Payload::Close(self.id)
    }
}

} // verus!
