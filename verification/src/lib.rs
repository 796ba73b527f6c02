//! Hierarchical progress reporting: a progress tree kept by a single
//! controller, the messages that producers send to it, and the snapshots it
//! hands out.
//!
//! Producers describe what they do as [`Payload`] messages, built through
//! [`Tx`]. A [`Controller`] applies the messages one by one to the tree of
//! reports; a [`Dispatcher`] adds to it the debounced delivery of changes to a
//! [`Consume`]r, through a [`consumers::Listener`] that keeps the record of
//! what the consumer was told. Nothing here waits, sends or reads a clock: whoever drives
//! the controller hands it each message with the time at which it arrived.
use vstd::prelude::*;

pub mod consumers;
pub mod flat_tree;
pub mod laws;
pub mod report;
pub mod rx;
pub mod severity;
pub mod tx;

pub use rx::{Controller, Dispatcher};
pub use tx::{cancel, cancelled, fetch, new, new_root, new_with_parent, reset, Tx};

verus! {

/// A report identifier.
///
/// Identifiers are handed out by one controller as an increasing counter that
/// starts at zero and wraps around.
pub type Id = usize;

/// A time or a span of time, in nanoseconds.
pub type Nanos = u64;

/// The debounce of a consumer that names none: 50 milliseconds.
pub const DEFAULT_DEBOUNCE: Nanos = 50_000_000;

/// What a consumer is told of one node.
pub enum Notice {
    /// The node is live: its identifier, its report and its parent.
    Report(Id, report::ReportView, Option<Id>),
    /// The node with this identifier is not live.
    Closed(Id),
}

/// A report consumer.
///
/// A consumer is _invoked_ by a [`Dispatcher`] with the reports that changed.
/// Who wants to _request_ the progress instead sends [`Payload::Fetch`].
pub trait Consume {
    /// The debounce timeout, in nanoseconds.
    ///
    /// Defaults to 50 milliseconds. This is the time waited for before
    /// [`Consume::rpt`] or [`Consume::closed`] are invoked, so that a report
    /// can be updated many times and be displayed once. With zero every
    /// change is delivered at once.
    fn debounce(&self) -> (d: Nanos)
        default_ensures
            d == DEFAULT_DEBOUNCE,
    {
        DEFAULT_DEBOUNCE
    }

    /// Invoked when a report was updated in some way.
    ///
    /// The `report` has the meat of the progress; `id` and `parent` say where
    /// it lands in the tree, and through `controller` the whole tree can be
    /// built.
    ///
    /// The node `id` is live in `controller`, with this report and this
    /// parent.
    fn rpt(&mut self, report: &report::Report, id: Id, parent: Option<Id>, controller: &Controller)
        requires
            controller@.wf(),
            controller@.nodes.contains_key(id),
            report@ == controller@.nodes[id].report,
            parent == controller@.nodes[id].parent,
    ;

    /// The report with `id` was closed, indicating it should be _removed
    /// from display_.
    ///
    /// The default implementation is to do nothing.
    fn closed(&mut self, _id: Id) {
    }
}

/// A message to the controller.
#[derive(Debug, PartialEq)]
pub enum Payload {
    /// Add a new report under the parent; without one, under the report
    /// that was added last.
    AddReport(Option<Id>),
    /// Add a new root report.
    AddRootReport,
    /// Fetch the progress tree.
    Fetch,
    /// Set the label.
    SetLabel(Id, String),
    /// Set the description.
    SetDesc(Id, String),
    /// Set the progress length. If `None`, this progress is indeterminate.
    SetLen(Id, Option<u64>),
    /// Set whether to format the length and position as bytes.
    SetFmtBytes(Id, bool),
    /// Increment the progress position by a number of ticks.
    Inc(Id, u64),
    /// Set the progress position.
    SetPos(Id, u64),
    /// Add an accumulation message.
    Accum(Id, report::Severity, String),
    /// Reporter has finished, but should be kept displayed.
    Finish(Id),
    /// Reporter has finished and should be removed from display.
    Close(Id),
    /// Set cancellation flag to true.
    Cancel,
    /// Get the cancellation status.
    Cancelled,
    /// Reset the controller's state.
    Reset,
}

/// What a [`Payload`] holds.
pub enum PayloadView {
    AddReport(Option<Id>),
    AddRootReport,
    Fetch,
    SetLabel(Id, Seq<char>),
    SetDesc(Id, Seq<char>),
    SetLen(Id, Option<u64>),
    SetFmtBytes(Id, bool),
    Inc(Id, u64),
    SetPos(Id, u64),
    Accum(Id, report::Severity, Seq<char>),
    Finish(Id),
    Close(Id),
    Cancel,
    Cancelled,
    Reset,
}

impl View for Payload {
    type V = PayloadView;

    open spec fn view(&self) -> PayloadView {
        match *self {
            Payload::AddReport(parent) => PayloadView::AddReport(parent),
            Payload::AddRootReport => PayloadView::AddRootReport,
            Payload::Fetch => PayloadView::Fetch,
            Payload::SetLabel(id, label) => PayloadView::SetLabel(id, label@),
            Payload::SetDesc(id, desc) => PayloadView::SetDesc(id, desc@),
            Payload::SetLen(id, len) => PayloadView::SetLen(id, len),
            Payload::SetFmtBytes(id, bytes) => PayloadView::SetFmtBytes(id, bytes),
            Payload::Inc(id, ticks) => PayloadView::Inc(id, ticks),
            Payload::SetPos(id, pos) => PayloadView::SetPos(id, pos),
            Payload::Accum(id, severity, msg) => PayloadView::Accum(id, severity, msg@),
            Payload::Finish(id) => PayloadView::Finish(id),
            Payload::Close(id) => PayloadView::Close(id),
            Payload::Cancel => PayloadView::Cancel,
            Payload::Cancelled => PayloadView::Cancelled,
            Payload::Reset => PayloadView::Reset,
        }
    }
}

} // verus!
