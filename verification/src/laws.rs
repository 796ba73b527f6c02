//! What holds of every controller, whatever the messages it gets: stated
//! over the controller's steps and proved from their definition.
use crate::report::{clamp, saturating_sum, MessageView, ProgressView, ReportView};
use crate::rx::{ascending, increasing, lemma_ascending, next_after, span, ControllerView, Dispatcher, NodeView, ReplyView};
use crate::{Id, Nanos, Notice, PayloadView};
use vstd::prelude::*;

verus! {

// ###### THE INVARIANT ########################################################
/// A message leaves a well-formed controller well-formed: the roots stay
/// live, the cursor keeps pointing at a live node or at none, and children
/// stay younger than their parents.
pub proof fn lemma_step_keeps_wf(s: ControllerView, p: PayloadView, now: Nanos)
    requires
        s.wf(),
    ensures
        s.step(p, now).wf(),
{
    match p {
        PayloadView::AddReport(None) => {
            match s.last {
                Some(parent) => lemma_add_child_keeps_wf(s, parent, now),
                None => lemma_add_root_keeps_wf(s, now),
            }
        },
        PayloadView::AddReport(Some(parent)) => lemma_add_child_keeps_wf(s, parent, now),
        PayloadView::AddRootReport => lemma_add_root_keeps_wf(s, now),
        PayloadView::Close(id) => {
            assert(s.close(id).wf());
        },
        PayloadView::Reset => {
            assert(ControllerView::fresh().wf());
        },
        PayloadView::Fetch => {},
        PayloadView::Cancel => {},
        PayloadView::Cancelled => {},
        PayloadView::SetLabel(id, _) => lemma_with_report_keeps_wf(s, id, s.step(p, now).nodes[id].report),
        PayloadView::SetDesc(id, _) => lemma_with_report_keeps_wf(s, id, s.step(p, now).nodes[id].report),
        PayloadView::SetLen(id, _) => lemma_with_report_keeps_wf(s, id, s.step(p, now).nodes[id].report),
        PayloadView::SetFmtBytes(id, _) => lemma_with_report_keeps_wf(
            s,
            id,
            s.step(p, now).nodes[id].report,
        ),
        PayloadView::Inc(id, _) => lemma_with_report_keeps_wf(s, id, s.step(p, now).nodes[id].report),
        PayloadView::SetPos(id, _) => lemma_with_report_keeps_wf(s, id, s.step(p, now).nodes[id].report),
        PayloadView::Accum(id, _, _) => lemma_with_report_keeps_wf(
            s,
            id,
            s.step(p, now).nodes[id].report,
        ),
        PayloadView::Finish(id) => lemma_with_report_keeps_wf(s, id, s.step(p, now).nodes[id].report),
    }
}

/// A new root leaves the controller well-formed.
proof fn lemma_add_root_keeps_wf(s: ControllerView, now: Nanos)
    requires
        s.wf(),
    ensures
        s.add_root(now).wf(),
{
}

/// A new child leaves the controller well-formed.
proof fn lemma_add_child_keeps_wf(s: ControllerView, parent: Id, now: Nanos)
    requires
        s.wf(),
    ensures
        s.add_child(parent, now).wf(),
{
    lemma_add_root_keeps_wf(s, now);
}

/// Another report for a node leaves the controller well-formed.
proof fn lemma_with_report_keeps_wf(s: ControllerView, id: Id, report: ReportView)
    requires
        s.wf(),
    ensures
        s.with_report(id, report).wf(),
{
}

/// So does any run of messages.
pub proof fn lemma_run_keeps_wf(s: ControllerView, trace: Seq<(PayloadView, Nanos)>)
    requires
        s.wf(),
    ensures
        s.run(trace).wf(),
    decreases trace.len(),
{
    if trace.len() > 0 {
        lemma_run_keeps_wf(s, trace.drop_last());
        lemma_step_keeps_wf(s.run(trace.drop_last()), trace.last().0, trace.last().1);
    }
}

// ###### CREATION #############################################################
/// A report that is added without a parent lands below the report that was
/// added last, at the end of its children, and becomes the last itself.
/// Where no report was added before, or the last was closed, it is a root.
pub proof fn lemma_new_nests_under_last(s: ControllerView, now: Nanos)
    requires
        s.wf(),
    ensures
        ({
            let id = s.next_id;
            let t = s.step(PayloadView::AddReport(None), now);
            &&& t.last == Some(id)
            &&& t.next_id == next_after(id)
            &&& t.nodes.contains_key(id)
            &&& t.nodes[id].report == ReportView::fresh()
            &&& t.nodes[id].children == Seq::<Id>::empty()
            &&& match s.last {
                Some(l) => {
                    &&& t.nodes[id].parent == Some(l)
                    &&& t.roots == s.roots
                    &&& l != id ==> t.nodes[l].children == s.nodes[l].children.push(id)
                },
                None => t.nodes[id].parent == None::<Id> && t.roots == s.roots.insert(id),
            }
        }),
{
}

/// Of two reports added one after the other without a parent, the second
/// is the one child of the first, and no root unless its identifier was a
/// root's before.
pub proof fn lemma_new_twice_nests(s: ControllerView, first: Nanos, second: Nanos)
    requires
        s.wf(),
    ensures
        ({
            let a = s.next_id;
            let b = next_after(a);
            let t = s.step(PayloadView::AddReport(None), first).step(PayloadView::AddReport(None), second);
            &&& a != b
            &&& t.nodes.contains_key(a)
            &&& t.nodes.contains_key(b)
            &&& t.nodes[b].parent == Some(a)
            &&& t.nodes[a].children == seq![b]
            &&& t.last == Some(b)
            &&& !t.roots.contains(b) || s.roots.contains(b)
        }),
{
    lemma_new_nests_under_last(s, first);
    lemma_step_keeps_wf(s, PayloadView::AddReport(None), first);
    lemma_new_nests_under_last(s.step(PayloadView::AddReport(None), first), second);
}

/// The identifier that is handed out `n` reports after `id`.
pub open spec fn nth_after(id: Id, n: nat) -> Id
    decreases n,
{
    if n == 0 {
        id
    } else {
        next_after(nth_after(id, (n - 1) as nat))
    }
}

/// As many requests for a new report without a parent as there are times,
/// each with the time at which it arrives.
pub open spec fn news(times: Seq<Nanos>) -> Seq<(PayloadView, Nanos)> {
    Seq::new(times.len(), |k: int| (PayloadView::AddReport(None), times[k]))
}

/// Counting on from an identifier wraps round once at most while no more
/// identifiers are handed out than there are.
proof fn lemma_nth_after(id: Id, n: nat)
    requires
        n <= usize::MAX + 1,
    ensures
        nth_after(id, n) == (if id + n <= usize::MAX {
            id + n
        } else {
            id + n - usize::MAX - 1
        }),
    decreases n,
{
    if n > 0 {
        lemma_nth_after(id, (n - 1) as nat);
    }
}

/// Counting on in two legs is counting on in one.
proof fn lemma_nth_after_sum(id: Id, i: nat, d: nat)
    ensures
        nth_after(id, i + d) == nth_after(nth_after(id, i), d),
    decreases d,
{
    if d > 0 {
        lemma_nth_after_sum(id, i, (d - 1) as nat);
    }
}

/// Two identifiers that a controller hands out differ, unless as many
/// reports were added between them as there are identifiers.
pub proof fn lemma_identifiers_differ(id: Id, i: nat, j: nat)
    requires
        i < j,
        j - i <= usize::MAX,
    ensures
        nth_after(id, i) != nth_after(id, j),
{
    lemma_nth_after_sum(id, i, (j - i) as nat);
    lemma_nth_after(nth_after(id, i), (j - i) as nat);
}

/// Where the cursor and the counter stand after a run of requests for a new
/// report without a parent.
proof fn lemma_news_run(s: ControllerView, times: Seq<Nanos>)
    requires
        s.wf(),
    ensures
        s.run(news(times)).wf(),
        s.run(news(times)).next_id == nth_after(s.next_id, times.len()),
        s.run(news(times)).last == (if times.len() == 0 {
            s.last
        } else {
            Some(nth_after(s.next_id, (times.len() - 1) as nat))
        }),
    decreases times.len(),
{
    lemma_run_keeps_wf(s, news(times));
    if times.len() > 0 {
        assert(news(times).drop_last() =~= news(times.drop_last()));
        lemma_news_run(s, times.drop_last());
        lemma_new_nests_under_last(s.run(news(times.drop_last())), times.last());
    }
}

/// Over any run of requests for a new report without a parent, the report
/// of each request lands below the report of the request before it, as its
/// one child; the report of the first lands below the report that was added
/// last before the run, and is a root where there was none.
///
/// The run is no longer than there are identifiers, so that none of its
/// reports takes the place of another.
pub proof fn lemma_news_nest_in_turn(s: ControllerView, times: Seq<Nanos>, k: int)
    requires
        s.wf(),
        0 <= k < times.len() <= usize::MAX + 1,
    ensures
        ({
            let t = s.run(news(times));
            let id = nth_after(s.next_id, k as nat);
            &&& t.nodes.contains_key(id)
            &&& t.nodes[id].report == ReportView::fresh()
            &&& t.nodes[id].started == times[k]
            &&& t.nodes[id].parent == (if k == 0 {
                s.last
            } else {
                Some(nth_after(s.next_id, (k - 1) as nat))
            })
            &&& t.nodes[id].children == (if k + 1 < times.len() {
                seq![nth_after(s.next_id, (k + 1) as nat)]
            } else {
                Seq::<Id>::empty()
            })
            &&& k == 0 && s.last is None ==> t.roots.contains(id)
        }),
    decreases times.len(),
{
    let n = times.len();
    let head = times.drop_last();
    assert(news(times).drop_last() =~= news(head));
    // the run up to the last request, then the last request
    lemma_news_run(s, head);
    lemma_new_nests_under_last(s.run(news(head)), times.last());
    // the identifiers of the run differ
    lemma_nth_after(s.next_id, k as nat);
    lemma_nth_after(s.next_id, (n - 1) as nat);
    if k < n - 1 {
        lemma_news_nest_in_turn(s, head, k);
        if k < n - 2 {
            lemma_nth_after(s.next_id, (n - 2) as nat);
        }
    }
}

/// The first report of a controller is a root.
pub proof fn lemma_first_new_is_root(now: Nanos)
    ensures
        ({
            let t = ControllerView::fresh().step(PayloadView::AddReport(None), now);
            &&& t.roots == set![0usize]
            &&& t.nodes.dom() == set![0usize]
            &&& t.nodes[0] == NodeView::fresh(None, now, 0)
        }),
{
}

/// A report that is added as a root is a root, wherever the cursor points:
/// it has no parent, no children and an empty report, it becomes the last
/// report, and no other node, root or flag changes.
pub proof fn lemma_new_root_is_root(s: ControllerView, now: Nanos)
    ensures
        ({
            let id = s.next_id;
            let t = s.step(PayloadView::AddRootReport, now);
            &&& s.reply(PayloadView::AddRootReport) == ReplyView::Id(id)
            &&& t.roots == s.roots.insert(id)
            &&& t.roots.contains(id)
            &&& t.nodes.contains_key(id)
            &&& t.nodes[id] == NodeView::fresh(None, now, s.births)
            &&& t.nodes[id].parent == None::<Id>
            &&& t.nodes[id].children == Seq::<Id>::empty()
            &&& t.nodes[id].report == ReportView::fresh()
            &&& t.last == Some(id)
            &&& t.next_id == next_after(id)
            &&& t.cancelled == s.cancelled
            &&& forall|k: Id| k != id ==> (t.nodes.contains_key(k) <==> s.nodes.contains_key(k))
            &&& forall|k: Id| k != id && s.nodes.contains_key(k) ==> t.nodes[k] == s.nodes[k]
        }),
{
}

// ###### CLOSING ##############################################################
/// A report that is added below a parent that was closed is a root.
pub proof fn lemma_new_under_closed_parent_is_root(s: ControllerView, parent: Id, closed: Nanos, now: Nanos)
    ensures
        ({
            let c = s.step(PayloadView::Close(parent), closed);
            let id = c.next_id;
            let t = c.step(PayloadView::AddReport(Some(parent)), now);
            &&& !c.nodes.contains_key(parent)
            &&& !c.roots.contains(parent)
            &&& t.roots.contains(id)
            &&& t.nodes[id] == NodeView::fresh(None, now, c.births)
        }),
{
}

/// More generally, a report that is added below a node that is not live,
/// closed or never created, is added as a root: it has no parent, no
/// children and an empty report, it becomes the last report, and no list
/// of children grows.
pub proof fn lemma_new_under_missing_parent_is_root(s: ControllerView, parent: Id, now: Nanos)
    requires
        !s.nodes.contains_key(parent),
    ensures
        s.step(PayloadView::AddReport(Some(parent)), now) == s.step(PayloadView::AddRootReport, now),
        ({
            let id = s.next_id;
            let t = s.step(PayloadView::AddReport(Some(parent)), now);
            &&& s.reply(PayloadView::AddReport(Some(parent))) == ReplyView::Id(id)
            &&& t.roots == s.roots.insert(id)
            &&& t.roots.contains(id)
            &&& t.nodes.contains_key(id)
            &&& t.nodes[id].parent == None::<Id>
            &&& t.nodes[id].children == Seq::<Id>::empty()
            &&& t.nodes[id].report == ReportView::fresh()
            &&& t.last == Some(id)
            &&& t.next_id == next_after(id)
            &&& t.cancelled == s.cancelled
            &&& forall|k: Id| k != id ==> (t.nodes.contains_key(k) <==> s.nodes.contains_key(k))
            &&& forall|k: Id| k != id && s.nodes.contains_key(k) ==> t.nodes[k] == s.nodes[k]
        }),
{
}

/// Below a live node the progress tree leaves out no live child: of the
/// nodes that are listed below the node it holds the trees of those that
/// are live, all of them and in the order of the list.
pub proof fn lemma_below_keeps_live_children(s: ControllerView, parent: Id, ids: Seq<Id>)
    requires
        s.wf(),
        s.nodes.contains_key(parent),
        forall|i: int| 0 <= i < ids.len() ==> s.nodes[parent].children.contains(#[trigger] ids[i]),
    ensures
        s.below(parent, ids) == ids.filter(|c: Id| s.nodes.contains_key(c)).map_values(
            |c: Id| s.subtree(c),
        ),
        ids == s.nodes[parent].children ==> s.subtree(parent).children == ids.filter(
            |c: Id| s.nodes.contains_key(c),
        ).map_values(|c: Id| s.subtree(c)),
    decreases ids.len(),
{
    let live = |c: Id| s.nodes.contains_key(c);
    let tree = |c: Id| s.subtree(c);
    reveal(Seq::filter);
    if ids.len() > 0 {
        let head = ids.drop_last();
        let c = ids.last();
        assert forall|i: int| 0 <= i < head.len() implies s.nodes[parent].children.contains(
            #[trigger] head[i],
        ) by {
            assert(head[i] == ids[i]);
        }
        lemma_below_keeps_live_children(s, parent, head);
        if s.nodes.contains_key(c) {
            assert(s.nodes[parent].children.contains(ids[ids.len() - 1]));
            let j = choose|j: int| 0 <= j < s.nodes[parent].children.len() && s.nodes[parent].children[j] == c;
            assert(s.nodes[parent].born < s.nodes[s.nodes[parent].children[j]].born);
            assert(s.rank(c) < s.rank(parent));
            assert(ids.filter(live) == head.filter(live).push(c));
            assert(ids.filter(live).map_values(tree) =~= head.filter(live).map_values(tree).push(s.subtree(c)));
        } else {
            assert(ids.filter(live) == head.filter(live));
        }
    } else {
        assert(ids.filter(live).map_values(tree) =~= Seq::<ProgressView>::empty());
    }
}

/// A node that is not live shows nowhere in the progress tree: it is none
/// of the roots that the tree starts from, and below a node the tree is
/// the same as if the node were not listed there.
pub proof fn lemma_missing_node_shows_nowhere(s: ControllerView, id: Id, parent: Id, ids: Seq<Id>)
    requires
        !s.nodes.contains_key(id),
    ensures
        !s.live_roots().contains(id),
        s.below(parent, ids) == s.below(parent, ids.filter(|k: Id| k != id)),
    decreases ids.len(),
{
    s.lemma_live_roots();
    let other = |k: Id| k != id;
    reveal(Seq::filter);
    if ids.len() > 0 {
        lemma_missing_node_shows_nowhere(s, id, parent, ids.drop_last());
        if ids.last() != id {
            assert(ids.filter(other).drop_last() =~= ids.drop_last().filter(other));
        }
    }
}

/// A report that was closed shows nowhere in the progress tree that is
/// fetched next.
pub proof fn lemma_closed_shows_nowhere(s: ControllerView, id: Id, now: Nanos, parent: Id, ids: Seq<Id>)
    ensures
        ({
            let c = s.step(PayloadView::Close(id), now);
            &&& !c.nodes.contains_key(id)
            &&& !c.live_roots().contains(id)
            &&& c.below(parent, ids) == c.below(parent, ids.filter(|k: Id| k != id))
            &&& c.reply(PayloadView::Fetch) == ReplyView::Progress(c.snapshot())
        }),
{
    lemma_missing_node_shows_nowhere(s.step(PayloadView::Close(id), now), id, parent, ids);
}

/// A controller without a live root has an empty progress tree; so has
/// every new controller.
pub proof fn lemma_no_roots_no_tree(s: ControllerView)
    requires
        s.roots.disjoint(s.nodes.dom()),
    ensures
        s.snapshot() == Seq::<ProgressView>::empty(),
        ControllerView::fresh().snapshot() == Seq::<ProgressView>::empty(),
{
    s.lemma_live_roots();
    if s.live_roots().len() > 0 {
        assert(s.live_roots().contains(s.live_roots()[0]));
    }
    let f = ControllerView::fresh();
    f.lemma_live_roots();
    if f.live_roots().len() > 0 {
        assert(f.live_roots().contains(f.live_roots()[0]));
    }
}

/// Closing a report a second time changes nothing.
pub proof fn lemma_close_twice(s: ControllerView, id: Id, first: Nanos, second: Nanos)
    ensures
        s.step(PayloadView::Close(id), first).step(PayloadView::Close(id), second) == s.step(
            PayloadView::Close(id),
            first,
        ),
{
    let once = s.step(PayloadView::Close(id), first);
    let twice = once.step(PayloadView::Close(id), second);
    assert(twice.nodes =~= once.nodes);
    assert(twice.roots =~= once.roots);
}

/// Closing a report that is not live changes nothing.
pub proof fn lemma_close_missing(s: ControllerView, id: Id, now: Nanos)
    requires
        s.wf(),
        !s.nodes.contains_key(id),
    ensures
        s.step(PayloadView::Close(id), now) == s,
{
    let t = s.step(PayloadView::Close(id), now);
    assert(t.nodes =~= s.nodes);
    assert(t.roots =~= s.roots);
}

// ###### POSITION #############################################################
/// A position that is set stops at the length.
pub proof fn lemma_set_pos_clamps(s: ControllerView, id: Id, pos: u64, now: Nanos)
    requires
        s.nodes.contains_key(id),
        s.nodes[id].report.state is InProgress,
    ensures
        ({
            let before = s.nodes[id].report.state;
            let after = s.step(PayloadView::SetPos(id, pos), now).nodes[id].report.state;
            &&& after is InProgress
            &&& after->len == before->len
            &&& after->bytes == before->bytes
            &&& after->pos == clamp(before->len, pos)
            &&& before->len matches Some(l) ==> after->pos <= l && (pos <= l ==> after->pos == pos) && (pos
                > l ==> after->pos == l)
            &&& before->len is None ==> after->pos == pos
        }),
{
}

/// A position that is moved on stops at `u64::MAX` in place of wrapping
/// round, and at the length.
pub proof fn lemma_inc_saturates(s: ControllerView, id: Id, ticks: u64, now: Nanos)
    requires
        s.nodes.contains_key(id),
        s.nodes[id].report.state is InProgress,
    ensures
        ({
            let before = s.nodes[id].report.state;
            let after = s.step(PayloadView::Inc(id, ticks), now).nodes[id].report.state;
            &&& after is InProgress
            &&& after->pos == clamp(before->len, saturating_sum(before->pos, ticks))
            &&& before->len is None && before->pos + ticks <= u64::MAX ==> after->pos == before->pos + ticks
            &&& before->len is None && before->pos + ticks > u64::MAX ==> after->pos == u64::MAX
            &&& before->len is None ==> after->pos >= before->pos
        }),
{
}

/// A message for a report that is not live changes nothing.
pub proof fn lemma_missing_target_is_ignored(s: ControllerView, p: PayloadView, now: Nanos)
    requires
        s.wf(),
        s.changed(p) matches Some(id) && !s.nodes.contains_key(id),
        !(p is AddReport),
        !(p is AddRootReport),
    ensures
        s.step(p, now) == s,
{
    if p is Close {
        lemma_close_missing(s, p->Close_0, now);
    }
}

// ###### MESSAGES #############################################################
/// Whether the message creates, closes or resets: what does none of these
/// leaves every node in its place.
pub open spec fn keeps_nodes(p: PayloadView) -> bool {
    !(p is AddReport) && !(p is AddRootReport) && !(p is Close) && !(p is Reset)
}

/// Whether the node `id` is the same node after the message: the message
/// neither resets, nor closes the node, nor creates a node in its place.
pub open spec fn keeps_node(s: ControllerView, p: PayloadView, id: Id) -> bool {
    &&& !(p is Reset)
    &&& p != PayloadView::Close(id)
    &&& (p is AddReport || p is AddRootReport) ==> s.next_id != id
}

/// The messages that the run accumulates for the node `id`, in the order of
/// the run.
pub open spec fn accumulated(trace: Seq<(PayloadView, Nanos)>, id: Id) -> Seq<MessageView>
    decreases trace.len(),
{
    if trace.len() == 0 {
        Seq::empty()
    } else {
        match trace.last().0 {
            PayloadView::Accum(target, severity, msg) if target == id => accumulated(
                trace.drop_last(),
                id,
            ).push(MessageView { severity, msg }),
            _ => accumulated(trace.drop_last(), id),
        }
    }
}

/// One message adds to the messages of a live report exactly when it is a
/// message for it, and then at the end; no other kind of change to the
/// report, or to any other, touches them.
pub proof fn lemma_step_accumulates(s: ControllerView, id: Id, p: PayloadView, now: Nanos)
    requires
        s.nodes.contains_key(id),
        keeps_node(s, p, id),
    ensures
        s.step(p, now).nodes.contains_key(id),
        s.step(p, now).nodes[id].report.accums == (match p {
            PayloadView::Accum(target, severity, msg) if target == id => s.nodes[id].report.accums.push(
                MessageView { severity, msg },
            ),
            _ => s.nodes[id].report.accums,
        }),
{
}

/// Over a run that creates and closes nothing, a live report holds in the
/// end the messages it held, then those that the run sent it, each once
/// and in the order in which they were sent.
pub proof fn lemma_run_accumulates(s: ControllerView, id: Id, trace: Seq<(PayloadView, Nanos)>)
    requires
        s.nodes.contains_key(id),
        forall|i: int| 0 <= i < trace.len() ==> keeps_nodes(#[trigger] trace[i].0),
    ensures
        s.run(trace).nodes.contains_key(id),
        s.run(trace).nodes[id].report.accums == s.nodes[id].report.accums + accumulated(trace, id),
        s.run(trace).nodes[id].report.accums.len() == s.nodes[id].report.accums.len() + accumulated(
            trace,
            id,
        ).len(),
    decreases trace.len(),
{
    if trace.len() > 0 {
        let head = trace.drop_last();
        lemma_run_accumulates(s, id, head);
        lemma_step_accumulates(s.run(head), id, trace.last().0, trace.last().1);
    }
}

// ###### DELIVERY #############################################################
/// A delivery tells the consumer of each node that changed exactly once,
/// in strictly ascending order of the nodes: of a live node its report and
/// parent as they are at the delivery, of any other that it was closed.
/// However often a node changed, it is told once.
pub proof fn lemma_owed_once_each(c: ControllerView, pending: Set<Id>)
    ensures
        ({
            let ids = ascending(pending, (usize::MAX + 1) as nat);
            let owed = c.notices(ids);
            &&& increasing(ids)
            &&& ids.no_duplicates()
            &&& forall|k: Id| ids.contains(k) <==> pending.contains(k)
            &&& pending.finite() ==> ids.len() == pending.len()
            &&& owed.len() == ids.len()
            &&& forall|i: int|
                0 <= i < ids.len() ==> #[trigger] owed[i] == (if c.nodes.contains_key(ids[i]) {
                    Notice::Report(ids[i], c.nodes[ids[i]].report, c.nodes[ids[i]].parent)
                } else {
                    Notice::Closed(ids[i])
                })
        }),
{
    let ids = ascending(pending, (usize::MAX + 1) as nat);
    lemma_ascending(pending, (usize::MAX + 1) as nat);
    assert(ids.to_set() =~= pending);
    ids.unique_seq_to_set();
}

/// Where no node changed, a delivery tells the consumer nothing: so does a
/// delivery that follows another with no message between them.
pub proof fn lemma_nothing_pending_nothing_owed(d: Dispatcher)
    requires
        d.pending() == Set::<Id>::empty(),
    ensures
        d.owed() == Seq::<Notice>::empty(),
{
    lemma_owed_once_each(d.controller(), d.pending());
    let ids = ascending(d.pending(), (usize::MAX + 1) as nat);
    if ids.len() > 0 {
        assert(ids.contains(ids[0]));
    }
    assert(d.owed() =~= Seq::<Notice>::empty());
}

/// With a debounce of zero there is no wait for a message and every moment
/// is due. So where nothing was pending, the delivery after a message tells
/// the consumer of the node that the message touched, as the message left
/// it, and of nothing else; after a message that touches no node, such as
/// a query, it tells nothing.
///
/// `after` is the dispatcher as [`Dispatcher::receive`] leaves `before`.
pub proof fn lemma_zero_debounce_tells_at_once(
    before: Dispatcher,
    after: Dispatcher,
    p: PayloadView,
    now: Nanos,
    checked: Nanos,
)
    requires
        before.debounce() == 0,
        before.pending() == Set::<Id>::empty(),
        after.controller() == before.controller().step(p, now),
        after.pending() == (match before.controller().changed(p) {
            Some(id) => before.pending().insert(id),
            None => before.pending(),
        }),
        after.last() == before.last(),
        after.debounce() == before.debounce(),
    ensures
        span(after.last(), checked) >= after.debounce(),
        after.owed() == (match before.controller().changed(p) {
            Some(id) => seq![after.controller().notice(id)],
            None => Seq::<Notice>::empty(),
        }),
{
    lemma_owed_once_each(after.controller(), after.pending());
    let ids = ascending(after.pending(), (usize::MAX + 1) as nat);
    match before.controller().changed(p) {
        Some(id) => {
            assert(ids.contains(id));
            assert(ids.len() == 1) by {
                if ids.len() == 0 {
                } else if ids.len() > 1 {
                    assert(ids.contains(ids[0]));
                    assert(ids.contains(ids[1]));
                }
            }
            assert(ids[0] == id);
            assert(after.owed() =~= seq![after.controller().notice(id)]);
        },
        None => {
            lemma_nothing_pending_nothing_owed(after);
        },
    }
}

// ###### CANCELLATION #########################################################
/// Once cancellation was asked for, every query is answered with `true`.
pub proof fn lemma_cancel_shows(s: ControllerView, now: Nanos)
    ensures
        s.step(PayloadView::Cancel, now).cancelled,
        s.step(PayloadView::Cancel, now).reply(PayloadView::Cancelled) == ReplyView::Cancelled(true),
{
}

/// The flag stays up under every message but a reset.
pub proof fn lemma_cancel_stays(s: ControllerView, p: PayloadView, now: Nanos)
    requires
        s.cancelled,
        !(p is Reset),
    ensures
        s.step(p, now).cancelled,
{
}

/// After cancellation was asked for, and over any run without a reset,
/// the flag is up and a query is answered with `true`: for the reports that
/// were there and for those that the run adds.
pub proof fn lemma_cancel_is_monotonic(s: ControllerView, at: Nanos, trace: Seq<(PayloadView, Nanos)>)
    requires
        forall|i: int| 0 <= i < trace.len() ==> !(#[trigger] trace[i].0 is Reset),
    ensures
        s.step(PayloadView::Cancel, at).run(trace).cancelled,
        s.step(PayloadView::Cancel, at).run(trace).reply(PayloadView::Cancelled) == ReplyView::Cancelled(
            true,
        ),
    decreases trace.len(),
{
    if trace.len() > 0 {
        lemma_cancel_is_monotonic(s, at, trace.drop_last());
        lemma_cancel_stays(s.step(PayloadView::Cancel, at).run(trace.drop_last()), trace.last().0, trace.last().1);
    }
}

/// A reset takes the flag down with everything else.
pub proof fn lemma_reset_clears(s: ControllerView, now: Nanos)
    ensures
        s.step(PayloadView::Reset, now) == ControllerView::fresh(),
        !s.step(PayloadView::Reset, now).cancelled,
{
}

} // verus!
