//! The controller: the one owner of the progress tree, which applies the
//! messages of the producers to it and builds the snapshots.
use crate::flat_tree::FlatTree;
use crate::report::{lemma_progress_view, progress_views, Progress, ProgressView, Report, ReportView, State};
use crate::consumers::Listener;
use crate::{Consume, Id, Nanos, Notice, Payload, PayloadView};
use std::collections::BTreeSet;
use vstd::prelude::*;

verus! {

// ###### NODE #################################################################
/// A node of the live tree.
pub struct Node {
    rpt: Report,
    children: Vec<Id>,
    parent: Option<Id>,
    started: Nanos,
    born: Ghost<nat>,
}

/// What a [`Node`] holds.
pub struct NodeView {
    /// The report of the node.
    pub report: ReportView,
    /// The nodes that were created below this one, in the order of their
    /// creation. One that was closed since is still listed.
    pub children: Seq<Id>,
    /// The node under which this one was created.
    pub parent: Option<Id>,
    /// When the node was created.
    pub started: Nanos,
    /// How many nodes the controller had created before this one.
    pub born: nat,
}

impl NodeView {
    /// A node as it is created.
    pub open spec fn fresh(parent: Option<Id>, now: Nanos, born: nat) -> NodeView {
        NodeView { report: ReportView::fresh(), children: Seq::empty(), parent, started: now, born }
    }

    /// The time from the creation of the node to `now`.
    pub open spec fn elapsed(self, now: Nanos) -> Nanos {
        if now >= self.started {
            (now - self.started) as Nanos
        } else {
            0
        }
    }
}

impl View for Node {
    type V = NodeView;

    closed spec fn view(&self) -> NodeView {
        NodeView {
            report: self.rpt@,
            children: self.children@,
            parent: self.parent,
            started: self.started,
            born: self.born@,
        }
    }
}

impl Node {
    fn root(parent: Option<Id>, now: Nanos, born: Ghost<nat>) -> (n: Self)
        ensures
            n@ == NodeView::fresh(parent, now, born@),
    {
        Node { rpt: Report::default(), children: Vec::new(), parent, started: now, born }
    }

    fn elapsed(&self, now: Nanos) -> (e: Nanos)
        ensures
            e == self@.elapsed(now),
    {
        if now >= self.started {
            now - self.started
        } else {
            0
        }
    }
}

// ###### CONTROLLER ###########################################################
/// The identifier that is handed out after `id`.
pub open spec fn next_after(id: Id) -> Id {
    if id == usize::MAX {
        0
    } else {
        (id + 1) as Id
    }
}

/// The owner of the progress tree.
pub struct Controller {
    ps: FlatTree<Id, Node>,
    last: Option<Id>,
    cancelled: bool,
    nextid: Id,
    births: Ghost<nat>,
}

/// What a [`Controller`] holds.
pub struct ControllerView {
    /// The live nodes.
    pub nodes: Map<Id, NodeView>,
    /// The nodes that were created as roots.
    pub roots: Set<Id>,
    /// The node that was created last, unless it was closed since.
    pub last: Option<Id>,
    /// Whether cancellation was asked for.
    pub cancelled: bool,
    /// The identifier of the node that is created next.
    pub next_id: Id,
    /// How many nodes were created so far.
    pub births: nat,
}

impl ControllerView {
    /// The controller before any message.
    pub open spec fn fresh() -> ControllerView {
        ControllerView {
            nodes: Map::empty(),
            roots: Set::empty(),
            last: None,
            cancelled: false,
            next_id: 0,
            births: 0,
        }
    }

    /// What every controller keeps: the roots are live, the cursor points at
    /// a live node, and a live node was created before each live node that
    /// is listed below it.
    pub open spec fn wf(self) -> bool {
        &&& self.nodes.dom().finite()
        &&& self.roots.subset_of(self.nodes.dom())
        &&& (self.last matches Some(l) ==> self.nodes.contains_key(l))
        &&& forall|id: Id| self.nodes.contains_key(id) ==> (#[trigger] self.nodes[id]).born < self.births
        &&& forall|id: Id, i: int|
            self.nodes.contains_key(id) && 0 <= i < self.nodes[id].children.len()
                && self.nodes.contains_key(#[trigger] self.nodes[id].children[i])
                ==> self.nodes[id].born < self.nodes[self.nodes[id].children[i]].born
    }

    /// How many nodes were created since the node `id`, itself included;
    /// zero for a node that is not live.
    pub open spec fn rank(self, id: Id) -> nat {
        if self.nodes.contains_key(id) && self.nodes[id].born < self.births {
            (self.births - self.nodes[id].born) as nat
        } else {
            0
        }
    }

    /// The controller after a node was created as a root.
    pub open spec fn add_root(self, now: Nanos) -> ControllerView {
        let id = self.next_id;
        ControllerView {
            nodes: self.nodes.insert(id, NodeView::fresh(None, now, self.births)),
            roots: self.roots.insert(id),
            last: Some(id),
            next_id: next_after(id),
            births: self.births + 1,
            ..self
        }
    }

    /// The controller after a node was created below `parent`. Below a
    /// parent that is not live the node becomes a root instead.
    pub open spec fn add_child(self, parent: Id, now: Nanos) -> ControllerView {
        let id = self.next_id;
        if self.nodes.contains_key(parent) {
            let p = self.nodes[parent];
            ControllerView {
                nodes: self.nodes.insert(parent, NodeView { children: p.children.push(id), ..p }).insert(
                    id,
                    NodeView::fresh(Some(parent), now, self.births),
                ),
                last: Some(id),
                next_id: next_after(id),
                births: self.births + 1,
                ..self
            }
        } else {
            self.add_root(now)
        }
    }

    /// The controller with another report for the node `id`, if it is live.
    pub open spec fn with_report(self, id: Id, report: ReportView) -> ControllerView {
        if self.nodes.contains_key(id) {
            ControllerView { nodes: self.nodes.insert(id, NodeView { report, ..self.nodes[id] }), ..self }
        } else {
            self
        }
    }

    /// The controller after the node `id` was closed: the node is gone, and
    /// so is the cursor if it pointed at the node. The nodes below it stay
    /// live and take messages, but the progress tree no longer reaches them.
    pub open spec fn close(self, id: Id) -> ControllerView {
        ControllerView {
            nodes: self.nodes.remove(id),
            roots: self.roots.remove(id),
            last: if self.last == Some(id) {
                None
            } else {
                self.last
            },
            ..self
        }
    }
}

/// Whether the identifiers come in strictly ascending order.
pub open spec fn increasing(q: Seq<Id>) -> bool {
    forall|i: int, j: int| 0 <= i < j < q.len() ==> q[i] < q[j]
}

/// The members of `set` below `bound`, in ascending order.
pub open spec fn ascending(set: Set<Id>, bound: nat) -> Seq<Id>
    decreases bound,
{
    if bound == 0 {
        Seq::empty()
    } else if bound - 1 <= usize::MAX && set.contains((bound - 1) as Id) {
        ascending(set, (bound - 1) as nat).push((bound - 1) as Id)
    } else {
        ascending(set, (bound - 1) as nat)
    }
}

impl ControllerView {
    /// The live roots in ascending order.
    pub open spec fn live_roots(self) -> Seq<Id> {
        ascending(self.roots.intersect(self.nodes.dom()), (usize::MAX + 1) as nat)
    }

    /// The tree of reports below the live node `id`, the node included.
    pub open spec fn subtree(self, id: Id) -> ProgressView
        decreases self.rank(id), self.nodes[id].children.len() + 1,
    {
        ProgressView { report: self.nodes[id].report, children: self.below(id, self.nodes[id].children) }
    }

    /// The trees of those of `ids` that are live, in the order of `ids`;
    /// `ids` are listed below the node `parent`.
    ///
    /// A node counts only if it was created after `parent`, which is what
    /// makes the walk end. In a well-formed controller every live node that
    /// is listed below a live node was.
    pub open spec fn below(self, parent: Id, ids: Seq<Id>) -> Seq<ProgressView>
        decreases self.rank(parent), ids.len(),
    {
        if ids.len() == 0 {
            Seq::empty()
        } else if self.rank(ids.last()) < self.rank(parent) && self.nodes.contains_key(ids.last()) {
            self.below(parent, ids.drop_last()).push(self.subtree(ids.last()))
        } else {
            self.below(parent, ids.drop_last())
        }
    }

    /// The progress tree: the trees of the live roots in ascending order.
    pub open spec fn snapshot(self) -> Seq<ProgressView> {
        Seq::new(self.live_roots().len(), |i: int| self.subtree(self.live_roots()[i]))
    }

    /// What a consumer is told of the node `id`: its report and parent as
    /// they are now if the node is live, else that it was closed.
    pub open spec fn notice(self, id: Id) -> Notice {
        if self.nodes.contains_key(id) {
            Notice::Report(id, self.nodes[id].report, self.nodes[id].parent)
        } else {
            Notice::Closed(id)
        }
    }

    /// What a consumer is told of the nodes `ids`, one notice for each, in
    /// the order of `ids`.
    pub open spec fn notices(self, ids: Seq<Id>) -> Seq<Notice> {
        Seq::new(ids.len(), |i: int| self.notice(ids[i]))
    }
}

/// [`ascending`] lists the members below the bound, each once and in
/// ascending order.
pub proof fn lemma_ascending(set: Set<Id>, bound: nat)
    ensures
        increasing(ascending(set, bound)),
        forall|k: Id| #[trigger] ascending(set, bound).contains(k) <==> set.contains(k) && k < bound,
    decreases bound,
{
    if bound > 0 {
        let rest = ascending(set, (bound - 1) as nat);
        lemma_ascending(set, (bound - 1) as nat);
        let all = ascending(set, bound);
        if bound - 1 <= usize::MAX && set.contains((bound - 1) as Id) {
            let top = (bound - 1) as Id;
            assert forall|i: int, j: int| 0 <= i < j < all.len() implies all[i] < all[j] by {
                if j == all.len() - 1 {
                    assert(rest.contains(rest[i]));
                }
            }
            assert forall|k: Id| all.contains(k) <==> set.contains(k) && k < bound by {
                if all.contains(k) {
                    let i = choose|i: int| 0 <= i < all.len() && all[i] == k;
                    if i < rest.len() {
                        assert(rest.contains(rest[i]));
                    }
                }
                if set.contains(k) && k < bound {
                    if k == top {
                        assert(all[all.len() - 1] == k);
                    } else {
                        assert(rest.contains(k));
                        let i = choose|i: int| 0 <= i < rest.len() && rest[i] == k;
                        assert(all[i] == k);
                    }
                }
            }
        }
    }
}

/// [`ascending`] starts with the least member, and goes on with the others
/// as if the least were none.
pub proof fn lemma_ascending_least(set: Set<Id>, least: Id, bound: nat)
    requires
        set.contains(least),
        forall|k: Id| set.contains(k) ==> least <= k,
    ensures
        ascending(set, bound) == (if bound > least {
            seq![least] + ascending(set.remove(least), bound)
        } else {
            Seq::<Id>::empty()
        }),
    decreases bound,
{
    if bound > 0 {
        lemma_ascending_least(set, least, (bound - 1) as nat);
        if bound - 1 == least {
            lemma_ascending(set.remove(least), least as nat);
            let none = ascending(set.remove(least), least as nat);
            if none.len() > 0 {
                assert(none.contains(none[0]));
            }
            assert(ascending(set, bound) =~= seq![least] + ascending(set.remove(least), bound));
        } else if bound - 1 > least {
            assert(ascending(set, bound) =~= seq![least] + ascending(set.remove(least), bound));
        }
    }
}

impl ControllerView {
    /// The live roots are the roots that are live, each once and in
    /// ascending order.
    pub proof fn lemma_live_roots(self)
        ensures
            increasing(self.live_roots()),
            self.live_roots().to_set() == self.roots.intersect(self.nodes.dom()),
            forall|k: Id|
                self.live_roots().contains(k) <==> self.roots.contains(k) && self.nodes.contains_key(k),
    {
        let set = self.roots.intersect(self.nodes.dom());
        lemma_ascending(set, (usize::MAX + 1) as nat);
        assert(self.live_roots().to_set() =~= set);
    }
}

/// Two strictly ascending sequences with the same members are the same.
pub proof fn lemma_increasing_unique(a: Seq<Id>, b: Seq<Id>)
    requires
        increasing(a),
        increasing(b),
        a.to_set() == b.to_set(),
    ensures
        a == b,
    decreases a.len(),
{
    if a.len() == 0 {
        if b.len() > 0 {
            assert(b.to_set().contains(b[0]));
        }
    } else {
        assert(a.to_set().contains(a.last()));
        assert(b.to_set().contains(b.last()));
        let a0 = a.drop_last();
        let b0 = b.drop_last();
        assert forall|x: Id| a0.to_set().contains(x) <==> b0.to_set().contains(x) by {
            if a0.contains(x) {
                let i = choose|i: int| 0 <= i < a0.len() && a0[i] == x;
                assert(a.to_set().contains(x));
                let j = choose|j: int| 0 <= j < b.len() && b[j] == x;
                assert(b0[j] == x);
            }
            if b0.contains(x) {
                let i = choose|i: int| 0 <= i < b0.len() && b0[i] == x;
                assert(b.to_set().contains(x));
                let j = choose|j: int| 0 <= j < a.len() && a[j] == x;
                assert(a0[j] == x);
            }
        }
        assert(a0.to_set() =~= b0.to_set());
        lemma_increasing_unique(a0, b0);
        assert(b =~= b0.push(b.last()));
    }
}

impl ControllerView {
    /// The controller after the message `p` that arrived at the time `now`.
    pub open spec fn step(self, p: PayloadView, now: Nanos) -> ControllerView {
        match p {
            PayloadView::AddReport(None) => match self.last {
                Some(parent) => self.add_child(parent, now),
                None => self.add_root(now),
            },
            PayloadView::AddReport(Some(parent)) => self.add_child(parent, now),
            PayloadView::AddRootReport => self.add_root(now),
            PayloadView::Fetch => self,
            PayloadView::SetLabel(id, label) => self.with_report(
                id,
                self.nodes[id].report.with_label(label),
            ),
            PayloadView::SetDesc(id, desc) => self.with_report(id, self.nodes[id].report.with_desc(desc)),
            PayloadView::SetLen(id, len) => self.with_state(id, self.nodes[id].report.state.with_len(len)),
            PayloadView::SetFmtBytes(id, bytes) => self.with_state(
                id,
                self.nodes[id].report.state.with_bytes(bytes),
            ),
            PayloadView::Inc(id, ticks) => self.with_state(
                id,
                self.nodes[id].report.state.advanced(ticks, self.nodes[id].elapsed(now)),
            ),
            PayloadView::SetPos(id, pos) => self.with_state(
                id,
                self.nodes[id].report.state.with_pos(pos, self.nodes[id].elapsed(now)),
            ),
            PayloadView::Accum(id, severity, msg) => self.with_report(
                id,
                self.nodes[id].report.with_message(severity, msg),
            ),
            PayloadView::Finish(id) => self.with_state(
                id,
                State::Completed { duration: self.nodes[id].elapsed(now) },
            ),
            PayloadView::Close(id) => self.close(id),
            PayloadView::Cancel => ControllerView { cancelled: true, ..self },
            PayloadView::Cancelled => self,
            PayloadView::Reset => ControllerView::fresh(),
        }
    }

    /// The controller after the messages of `trace`, each with the time at
    /// which it arrived, from the first to the last.
    pub open spec fn run(self, trace: Seq<(PayloadView, Nanos)>) -> ControllerView
        decreases trace.len(),
    {
        if trace.len() == 0 {
            self
        } else {
            self.run(trace.drop_last()).step(trace.last().0, trace.last().1)
        }
    }

    /// The controller with another state in the report of the node `id`, if
    /// it is live.
    pub open spec fn with_state(self, id: Id, state: State) -> ControllerView {
        self.with_report(id, self.nodes[id].report.with_state(state))
    }

    /// The node that the message `p` changes, creates or closes. It is named
    /// whether it is live or not.
    pub open spec fn changed(self, p: PayloadView) -> Option<Id> {
        match p {
            PayloadView::AddReport(_) => Some(self.next_id),
            PayloadView::AddRootReport => Some(self.next_id),
            PayloadView::Fetch => None,
            PayloadView::SetLabel(id, _) => Some(id),
            PayloadView::SetDesc(id, _) => Some(id),
            PayloadView::SetLen(id, _) => Some(id),
            PayloadView::SetFmtBytes(id, _) => Some(id),
            PayloadView::Inc(id, _) => Some(id),
            PayloadView::SetPos(id, _) => Some(id),
            PayloadView::Accum(id, _, _) => Some(id),
            PayloadView::Finish(id) => Some(id),
            PayloadView::Close(id) => Some(id),
            PayloadView::Cancel => None,
            PayloadView::Cancelled => None,
            PayloadView::Reset => None,
        }
    }

    /// What the sender of the message `p` is told.
    pub open spec fn reply(self, p: PayloadView) -> ReplyView {
        match p {
            PayloadView::AddReport(_) => ReplyView::Id(self.next_id),
            PayloadView::AddRootReport => ReplyView::Id(self.next_id),
            PayloadView::Fetch => ReplyView::Progress(self.snapshot()),
            PayloadView::Cancelled => ReplyView::Cancelled(self.cancelled),
            _ => ReplyView::Nothing,
        }
    }
}

// ###### OUTCOME ##############################################################
/// What the controller tells the sender of a message.
#[derive(Debug, PartialEq)]
pub enum Reply {
    /// The message asks for no answer.
    Nothing,
    /// The identifier of the report that was added.
    Id(Id),
    /// The progress tree.
    Progress(Vec<Progress>),
    /// The cancellation flag.
    Cancelled(bool),
}

/// What a [`Reply`] holds.
pub enum ReplyView {
    Nothing,
    Id(Id),
    Progress(Seq<ProgressView>),
    Cancelled(bool),
}

impl View for Reply {
    type V = ReplyView;

    open spec fn view(&self) -> ReplyView {
        match *self {
            Reply::Nothing => ReplyView::Nothing,
            Reply::Id(id) => ReplyView::Id(id),
            Reply::Progress(tree) => ReplyView::Progress(progress_views(tree@)),
            Reply::Cancelled(flag) => ReplyView::Cancelled(flag),
        }
    }
}

/// What the controller did with a message.
#[derive(Debug, PartialEq)]
pub struct Outcome {
    /// The node that the message changed, created or closed.
    pub changed: Option<Id>,
    /// The answer to the sender.
    pub reply: Reply,
}

/// What the nodes of a tree hold.
spec fn node_views(m: Map<Id, Node>) -> Map<Id, NodeView> {
    m.map_values(|n: Node| n@)
}

/// Replacing a node replaces what it holds, and nothing else.
proof fn lemma_node_views_insert(m: Map<Id, Node>, id: Id)
    ensures
        forall|n: Node| #[trigger] node_views(m.insert(id, n)) == node_views(m).insert(id, n@),
{
    assert forall|n: Node| #[trigger] node_views(m.insert(id, n)) =~= node_views(m).insert(id, n@) by {}
}

impl View for Controller {
    type V = ControllerView;

    closed spec fn view(&self) -> ControllerView {
        ControllerView {
            nodes: node_views(self.ps.node_map()),
            roots: self.ps.root_set(),
            last: self.last,
            cancelled: self.cancelled,
            next_id: self.nextid,
            births: self.births@,
        }
    }
}

impl Default for Controller {
    /// A controller with no nodes.
    fn default() -> (c: Self)
        ensures
            c@ == ControllerView::fresh(),
            c@.wf(),
    {
        let c = Controller {
            ps: FlatTree::default(),
            last: None,
            cancelled: false,
            nextid: 0,
            births: Ghost(0),
        };
        assert(c@.nodes =~= Map::empty());
        c
    }
}

impl Controller {
    fn next_id(&mut self) -> (id: Id)
        ensures
            id == old(self).nextid,
            final(self).nextid == next_after(id),
            final(self).ps == old(self).ps,
            final(self).last == old(self).last,
            final(self).cancelled == old(self).cancelled,
            final(self).births == old(self).births,
    {
        let id = self.nextid;
        self.nextid = self.nextid.wrapping_add(1);
        id
    }

    fn add_root(&mut self, now: Nanos) -> (id: Id)
        requires
            old(self)@.wf(),
        ensures
            id == old(self)@.next_id,
            final(self)@ == old(self)@.add_root(now),
            final(self)@.wf(),
            final(self)@.roots.contains(id),
            final(self)@.nodes.contains_key(id),
            final(self)@.nodes[id] == NodeView::fresh(None, now, old(self)@.births),
    {
        let id = self.next_id();
        self.ps.insert_root(id, Node::root(None, now, Ghost(self.births@)));
        self.last = Some(id);
        proof {
            self.births@ = self.births@ + 1;
            assert(self@.nodes =~= old(self)@.add_root(now).nodes);
        }
        id
    }
    fn add_child(&mut self, parent: Id, now: Nanos) -> (id: Id)
        requires
            old(self)@.wf(),
        ensures
            id == old(self)@.next_id,
            final(self)@ == old(self)@.add_child(parent, now),
            final(self)@.wf(),
            final(self)@.nodes.contains_key(id),
            !old(self)@.nodes.contains_key(parent) ==> final(self)@ == old(self)@.add_root(now)
                && final(self)@.roots.contains(id) && final(self)@.nodes[id] == NodeView::fresh(
                None,
                now,
                old(self)@.births,
            ),
    {
        let id = self.next_id();
        match self.ps.get_mut(&parent) {
            Some(p) => {
                p.children.push(id);
                self.ps.insert(id, Node::root(Some(parent), now, Ghost(self.births@)));
            },
            None => {
                self.ps.insert_root(id, Node::root(None, now, Ghost(self.births@)));
            },
        }
        self.last = Some(id);
        proof {
            self.births@ = self.births@ + 1;
            assert(self@.nodes =~= old(self)@.add_child(parent, now).nodes);
        }
        id
    }
    /// The report of the node `id`, to be changed, and the time since the
    /// node was created.
    fn report_mut(&mut self, id: Id, now: Nanos) -> (r: Option<(&mut Report, Nanos)>)
        requires
            old(self)@.wf(),
        ensures
            match r {
                Some((rpt, elapsed)) => {
                    &&& old(self)@.nodes.contains_key(id)
                    &&& rpt@ == old(self)@.nodes[id].report
                    &&& elapsed == old(self)@.nodes[id].elapsed(now)
                    &&& final(self)@ == old(self)@.with_report(id, final(rpt)@)
                },
                None => !old(self)@.nodes.contains_key(id) && final(self)@ == old(self)@,
            },
            final(self)@.wf(),
    {
        proof {
            lemma_node_views_insert(self.ps.node_map(), id);
        }
        match self.ps.get_mut(&id) {
            Some(x) => {
                let elapsed = x.elapsed(now);
                Some((&mut x.rpt, elapsed))
            },
            None => None,
        }
    }

    /// The tree of reports below the node `id`, if it is live.
    fn build_public_prg_(&self, id: Id) -> (r: Option<Progress>)
        requires
            self@.wf(),
        ensures
            match r {
                Some(p) => self@.nodes.contains_key(id) && p@ == self@.subtree(id),
                None => !self@.nodes.contains_key(id),
            },
        decreases self@.rank(id),
    {
        match self.ps.get(&id) {
            None => None,
            Some(node) => {
                let mut children: Vec<Progress> = Vec::new();
                let mut i: usize = 0;
                while i < node.children.len()
                    invariant
                        self@.wf(),
                        self@.nodes.contains_key(id),
                        self@.nodes[id] == node@,
                        0 <= i <= node.children.len(),
                        progress_views(children@) == self@.below(id, node.children@.take(i as int)),
                    decreases node.children.len() - i,
                {
                    let c = node.children[i];
                    proof {
                        assert(node.children@.take(i + 1).drop_last() =~= node.children@.take(i as int));
                        assert(self@.nodes[id].children[i as int] == c);
                    }
                    match self.build_public_prg_(c) {
                        Some(p) => {
                            children.push(p);
                        },
                        None => {},
                    }
                    i = i + 1;
                }
                assert(node.children@.take(i as int) =~= node.children@);
                let p = Progress { report: node.rpt.clone(), children };
                proof {
                    lemma_progress_view(p);
                }
                Some(p)
            },
        }
    }

    /// The progress tree: the trees of the live roots in ascending order. A
    /// node that was closed shows nowhere in it.
    pub fn build_progress_tree(&self) -> (r: Vec<Progress>)
        requires
            self@.wf(),
        ensures
            progress_views(r@) == self@.snapshot(),
    {
        let roots = self.ps.roots();
        let ghost ids = Seq::new(roots@.len(), |i: int| roots@[i].0);
        proof {
            assert forall|k: Id| ids.to_set().contains(k) <==> self@.roots.intersect(
                self@.nodes.dom(),
            ).contains(k) by {
                if self@.roots.contains(k) && self@.nodes.contains_key(k) {
                    let i = choose|i: int| 0 <= i < roots@.len() && #[trigger] roots@[i].0 == k;
                    assert(ids[i] == k);
                }
            }
            assert(ids.to_set() =~= self@.roots.intersect(self@.nodes.dom()));
            self@.lemma_live_roots();
            lemma_increasing_unique(ids, self@.live_roots());
        }
        let mut out: Vec<Progress> = Vec::new();
        let mut i: usize = 0;
        while i < roots.len()
            invariant
                self@.wf(),
                0 <= i <= roots.len(),
                ids == self@.live_roots(),
                ids.len() == roots@.len(),
                forall|j: int| 0 <= j < ids.len() ==> ids[j] == roots@[j].0,
                forall|j: int| 0 <= j < ids.len() ==> self@.nodes.contains_key(#[trigger] ids[j]),
                out@.len() == i,
                forall|j: int| 0 <= j < i ==> (#[trigger] out@[j])@ == self@.subtree(ids[j]),
            decreases roots.len() - i,
        {
            let id = roots[i].0;
            assert(id == ids[i as int]);
            match self.build_public_prg_(id) {
                Some(p) => {
                    out.push(p);
                },
                None => {},
            }
            i = i + 1;
        }
        out
    }

    /// Apply one message, which arrived at the time `now`, and say which
    /// node it touched and what its sender is told.
    ///
    /// A message for a node that is not live changes nothing. Closing a node
    /// removes that node alone: the nodes below it stay live, but they show
    /// in no progress tree, as the one node that lists them is gone.
    pub fn process(&mut self, payload: Payload, now: Nanos) -> (out: Outcome)
        requires
            old(self)@.wf(),
        ensures
            final(self)@ == old(self)@.step(payload@, now),
            final(self)@.wf(),
            out.changed == old(self)@.changed(payload@),
            out.reply@ == old(self)@.reply(payload@),
    {
        match payload {
            Payload::AddReport(None) => {
                let id = match self.last {
                    Some(parent) => self.add_child(parent, now),
                    None => self.add_root(now),
                };
                Outcome { changed: Some(id), reply: Reply::Id(id) }
            },
            Payload::AddReport(Some(parent)) => {
                let id = self.add_child(parent, now);
                Outcome { changed: Some(id), reply: Reply::Id(id) }
            },
            Payload::AddRootReport => {
                let id = self.add_root(now);
                Outcome { changed: Some(id), reply: Reply::Id(id) }
            },
            Payload::Fetch => Outcome { changed: None, reply: Reply::Progress(self.build_progress_tree()) },
            Payload::SetLabel(id, label) => {
                match self.report_mut(id, now) {
                    Some((x, _)) => {
                        x.label = label;
                    },
                    None => {},
                }
                Outcome { changed: Some(id), reply: Reply::Nothing }
            },
            Payload::SetDesc(id, d) => {
                match self.report_mut(id, now) {
                    Some((x, _)) => {
                        x.desc = d;
                    },
                    None => {},
                }
                Outcome { changed: Some(id), reply: Reply::Nothing }
            },
            Payload::SetLen(id, len) => {
                match self.report_mut(id, now) {
                    Some((x, _)) => x.set_len(len),
                    None => {},
                }
                Outcome { changed: Some(id), reply: Reply::Nothing }
            },
            Payload::Inc(id, by) => {
                match self.report_mut(id, now) {
                    Some((x, e)) => x.inc_pos(by, e),
                    None => {},
                }
                Outcome { changed: Some(id), reply: Reply::Nothing }
            },
            Payload::SetPos(id, pos) => {
                match self.report_mut(id, now) {
                    Some((x, e)) => x.update_pos(pos, e),
                    None => {},
                }
                Outcome { changed: Some(id), reply: Reply::Nothing }
            },
            Payload::SetFmtBytes(id, y) => {
                match self.report_mut(id, now) {
                    Some((x, _)) => x.set_fmt_as_bytes(y),
                    None => {},
                }
                Outcome { changed: Some(id), reply: Reply::Nothing }
            },
            Payload::Accum(id, severity, msg) => {
                match self.report_mut(id, now) {
                    Some((x, _)) => x.accum(severity, msg),
                    None => {},
                }
                Outcome { changed: Some(id), reply: Reply::Nothing }
            },
            Payload::Finish(id) => {
                match self.report_mut(id, now) {
                    Some((x, e)) => x.finish(e),
                    None => {},
                }
                Outcome { changed: Some(id), reply: Reply::Nothing }
            },
            Payload::Close(id) => {
                self.ps.remove(&id);
                if self.last == Some(id) {
                    self.last = None;
                }
                proof {
                    assert(self@.nodes =~= old(self)@.close(id).nodes);
                }
                Outcome { changed: Some(id), reply: Reply::Nothing }
            },
            Payload::Cancel => {
                self.cancelled = true;
                Outcome { changed: None, reply: Reply::Nothing }
            },
            Payload::Cancelled => Outcome { changed: None, reply: Reply::Cancelled(self.cancelled) },
            Payload::Reset => {
                *self = Controller::default();
                Outcome { changed: None, reply: Reply::Nothing }
            },
        }
    }
    /// The report of the node `id` and the node under which it was created,
    /// if the node is live.
    pub fn get(&self, id: Id) -> (r: Option<(&Report, Option<Id>)>)
        ensures
            match r {
                Some((rpt, parent)) => {
                    &&& self@.nodes.contains_key(id)
                    &&& rpt@ == self@.nodes[id].report
                    &&& parent == self@.nodes[id].parent
                },
                None => !self@.nodes.contains_key(id),
            },
    {
        match self.ps.get(&id) {
            Some(node) => Some((&node.rpt, node.parent)),
            None => None,
        }
    }
}

// ###### DISPATCHER ###########################################################
/// A controller together with the nodes that changed since its consumer was
/// last told: what the consumer loop keeps between two messages.
pub struct Dispatcher {
    controller: Controller,
    changed: BTreeSet<Id>,
    last: Nanos,
    debounce: Nanos,
}

/// The time from `since` to `now`; none if `now` is the earlier.
pub open spec fn span(since: Nanos, now: Nanos) -> Nanos {
    if now >= since {
        (now - since) as Nanos
    } else {
        0
    }
}

impl Dispatcher {
    /// The controller.
    pub closed spec fn controller(&self) -> ControllerView {
        self.controller@
    }

    /// The nodes that changed since the consumer was last told.
    pub closed spec fn pending(&self) -> Set<Id> {
        self.changed@
    }

    /// When the consumer was last told.
    pub closed spec fn last(&self) -> Nanos {
        self.last
    }

    /// The time that passes between two deliveries to the consumer.
    pub closed spec fn debounce(&self) -> Nanos {
        self.debounce
    }

    /// What every dispatcher keeps.
    pub open spec fn wf(&self) -> bool {
        self.controller().wf() && self.pending().finite()
    }

    /// What the consumer is told at the next delivery: one notice for each
    /// node that changed, in ascending order of the nodes, each with the
    /// node as it is now.
    pub open spec fn owed(&self) -> Seq<Notice> {
        self.controller().notices(ascending(self.pending(), (usize::MAX + 1) as nat))
    }

    /// A dispatcher with a new controller, for a consumer with the given
    /// debounce, started at the time `now`.
    pub fn new(debounce: Nanos, now: Nanos) -> (d: Self)
        ensures
            d.wf(),
            d.controller() == ControllerView::fresh(),
            d.pending() == Set::<Id>::empty(),
            d.last() == now,
            d.debounce() == debounce,
    {
        Dispatcher { controller: Controller::default(), changed: BTreeSet::new(), last: now, debounce }
    }

    /// How long to wait for the next message before looking at the clock
    /// again: the debounce, or without bound where the debounce is zero.
    pub fn timeout(&self) -> (t: Option<Nanos>)
        ensures
            t == (if self.debounce() == 0 {
                None
            } else {
                Some(self.debounce())
            }),
    {
        if self.debounce == 0 {
            None
        } else {
            Some(self.debounce)
        }
    }

    /// Apply one message, which arrived at the time `now`, note the node it
    /// touched as changed, and return what its sender is told.
    pub fn receive(&mut self, payload: Payload, now: Nanos) -> (reply: Reply)
        requires
            old(self).wf(),
        ensures
            final(self).wf(),
            final(self).controller() == old(self).controller().step(payload@, now),
            final(self).pending() == (match old(self).controller().changed(payload@) {
                Some(id) => old(self).pending().insert(id),
                None => old(self).pending(),
            }),
            final(self).last() == old(self).last(),
            final(self).debounce() == old(self).debounce(),
            reply@ == old(self).controller().reply(payload@),
    {
        let out = self.controller.process(payload, now);
        match out.changed {
            Some(id) => {
                self.changed.insert(id);
            },
            None => {},
        }
        out.reply
    }

    /// Whether at the time `now` the debounce has passed since the consumer
    /// was last told.
    pub fn due(&self, now: Nanos) -> (b: bool)
        ensures
            b == (span(self.last(), now) >= self.debounce()),
    {
        let elapsed = if now >= self.last {
            now - self.last
        } else {
            0
        };
        elapsed >= self.debounce
    }

    /// Take the least of the nodes that changed.
    pub fn pop(&mut self) -> (r: Option<Id>)
        requires
            old(self).wf(),
        ensures
            final(self).wf(),
            final(self).controller() == old(self).controller(),
            final(self).last() == old(self).last(),
            final(self).debounce() == old(self).debounce(),
            match r {
                Some(id) => {
                    &&& old(self).pending().contains(id)
                    &&& forall|k: Id| old(self).pending().contains(k) ==> id <= k
                    &&& final(self).pending() == old(self).pending().remove(id)
                },
                None => old(self).pending().is_empty() && final(self).pending() == old(self).pending(),
            },
    {
        set_pop_first(&mut self.changed)
    }

    /// Tell the consumer of every node that changed, once and in ascending
    /// order: of a live node with its report and parent as they are now, of
    /// any other that it was closed. Afterwards no node counts as changed.
    pub fn deliver<C: Consume>(&mut self, consumer: &mut Listener<C>)
        requires
            old(self).wf(),
        ensures
            final(self).wf(),
            final(consumer).told() == old(consumer).told() + old(self).owed(),
            final(self).pending() == Set::<Id>::empty(),
            final(self).controller() == old(self).controller(),
            final(self).last() == old(self).last(),
            final(self).debounce() == old(self).debounce(),
    {
        loop
            invariant
                self.wf(),
                self.controller() == old(self).controller(),
                self.last() == old(self).last(),
                self.debounce() == old(self).debounce(),
                consumer.told() + self.owed() == old(consumer).told() + old(self).owed(),
            ensures
                self.pending() == Set::<Id>::empty(),
                consumer.told() == old(consumer).told() + old(self).owed(),
            decreases self.pending().len(),
        {
            let ghost told = consumer.told();
            let ghost owed = self.owed();
            let ghost pending = self.pending();
            match self.pop() {
                None => {
                    proof {
                        let none = ascending(pending, (usize::MAX + 1) as nat);
                        lemma_ascending(pending, (usize::MAX + 1) as nat);
                        if none.len() > 0 {
                            assert(none.contains(none[0]));
                        }
                        assert(told + owed =~= told);
                    }
                    break ;
                },
                Some(id) => {
                    proof {
                        lemma_ascending_least(pending, id, (usize::MAX + 1) as nat);
                        assert(owed =~= seq![self.controller().notice(id)] + self.owed());
                    }
                    match self.controller.get(id) {
                        Some((rpt, parent)) => consumer.rpt(rpt, id, parent, &self.controller),
                        None => consumer.closed(id),
                    }
                    assert(consumer.told() + self.owed() =~= told + owed);
                },
            }
        }
    }

    /// Count the debounce from the time `now`.
    pub fn restart(&mut self, now: Nanos)
        ensures
            final(self).last() == now,
            final(self).controller() == old(self).controller(),
            final(self).pending() == old(self).pending(),
            final(self).debounce() == old(self).debounce(),
    {
        self.last = now;
    }
}

/// `BTreeSet::pop_first`: removes the first element of the set, which is its
/// minimum, and returns it; an empty set stays empty and gives `None`.
#[verifier::external_body]
fn set_pop_first(s: &mut BTreeSet<Id>) -> (r: Option<Id>)
    ensures
        match r {
            Some(m) => {
                &&& old(s)@.contains(m)
                &&& forall|k: Id| old(s)@.contains(k) ==> m <= k
                &&& final(s)@ == old(s)@.remove(m)
            },
            None => old(s)@.is_empty() && final(s)@ == old(s)@,
        },
{
    s.pop_first()
}

} // verus!
