//! The change DAG store and branch registry, and the step-wise commit
//! protocol. The store keeps an arena of content identifiers (nodes),
//! parent-to-child edges between arena indices, a registry of branch heads,
//! and the priorities of registered change handlers. Commits run as a small
//! state machine: the caller performs each requested backend or handler
//! action and reports its outcome, and the machine decides the next step.

use vstd::prelude::*;
use crate::digest::id_eq;

verus! {

/// A commit targeted a branch that is not registered.
#[derive(Debug)]
pub struct NoSuchBranch {
    pub branch: (String, String),
}

impl From<(String, String)> for NoSuchBranch {
    fn from(b: (String, String)) -> (r: Self) {
        NoSuchBranch { branch: b }
    }
}

impl vstd::std_specs::convert::FromSpecImpl<(String, String)> for NoSuchBranch {
    open spec fn obeys_from_spec() -> bool {
        true
    }

    open spec fn from_spec(b: (String, String)) -> Self {
        NoSuchBranch { branch: b }
    }
}

/// A commit declared a parent that is not a node of the DAG.
#[derive(Clone, Debug)]
pub struct MissingParent {
    pub parent: [u8; 32],
}

impl From<[u8; 32]> for MissingParent {
    fn from(p: [u8; 32]) -> (r: Self) {
        MissingParent { parent: p }
    }
}

impl vstd::std_specs::convert::FromSpecImpl<[u8; 32]> for MissingParent {
    open spec fn obeys_from_spec() -> bool {
        true
    }

    open spec fn from_spec(p: [u8; 32]) -> Self {
        MissingParent { parent: p }
    }
}

/// Why a commit did not complete cleanly. The precondition failures leave
/// the store untouched; a backend or handler failure is reported after the
/// in-memory mutations it follows have already taken effect.
#[derive(Debug)]
pub enum CommitError {
    BranchNotFound(NoSuchBranch),
    MissingParent(MissingParent),
    BackendFailure,
    HandlerFailure(usize),
}

/// The abstract state of a store: node identifiers in insertion order,
/// parent-to-child edges over node indices, branch heads, and handler
/// priorities in registration order.
pub ghost struct StoreModel {
    pub nodes: Seq<Seq<u8>>,
    pub edges: Seq<(int, int)>,
    pub branches: Map<(Seq<char>, Seq<char>), Seq<u8>>,
    pub handlers: Seq<u32>,
}

/// Well-formedness of a store model: identifiers are 32 bytes and unique,
/// and edges connect existing nodes.
pub open spec fn model_wf(s: StoreModel) -> bool {
    &&& forall|i: int| 0 <= i < s.nodes.len() ==> (#[trigger] s.nodes[i]).len() == 32
    &&& forall|i: int, j: int|
        0 <= i < j < s.nodes.len() ==> s.nodes[i] != s.nodes[j]
    &&& forall|i: int|
        0 <= i < s.edges.len() ==> {
            &&& 0 <= (#[trigger] s.edges[i]).0 < s.nodes.len()
            &&& 0 <= s.edges[i].1 < s.nodes.len()
        }
}

/// Whether `id` is a node of the arena.
pub open spec fn has_node_in(nodes: Seq<Seq<u8>>, id: Seq<u8>) -> bool {
    exists|i: int| 0 <= i < nodes.len() && nodes[i] == id
}

/// The arena index of `id`; meaningful when `has_node_in` holds and the
/// arena has no duplicates.
pub open spec fn node_index(nodes: Seq<Seq<u8>>, id: Seq<u8>) -> int {
    choose|i: int| 0 <= i < nodes.len() && nodes[i] == id
}

/// The first parent of `parents` that is not a node of the arena, if any;
/// a commit reports only this one.
pub open spec fn first_missing_parent(nodes: Seq<Seq<u8>>, parents: Seq<Seq<u8>>) -> Option<
    Seq<u8>,
>
    decreases parents.len(),
{
    if parents.len() == 0 {
        None
    } else if !has_node_in(nodes, parents[0]) {
        Some(parents[0])
    } else {
        first_missing_parent(nodes, parents.drop_first())
    }
}

/// The byte sequences of a list of identifiers.
pub open spec fn ids_view(s: Seq<[u8; 32]>) -> Seq<Seq<u8>> {
    Seq::new(s.len(), |i: int| s[i]@)
}

/// The edges wired for a new node at index `child` whose declared parents
/// are `parents`, in declaration order.
pub open spec fn parent_edges(nodes: Seq<Seq<u8>>, parents: Seq<Seq<u8>>, child: int) -> Seq<
    (int, int),
> {
    Seq::new(parents.len(), |i: int| (node_index(nodes, parents[i]), child))
}

struct BranchEntry {
    namespace: String,
    name: String,
    head: [u8; 32],
}

spec fn entry_key(e: BranchEntry) -> (Seq<char>, Seq<char>) {
    (e.namespace@, e.name@)
}

/// The branch map described by a registry list; later entries would win,
/// though a well-formed registry has no repeated keys.
spec fn map_of(s: Seq<BranchEntry>) -> Map<(Seq<char>, Seq<char>), Seq<u8>>
    decreases s.len(),
{
    if s.len() == 0 {
        Map::empty()
    } else {
        map_of(s.drop_last()).insert(entry_key(s.last()), s.last().head@)
    }
}

proof fn lemma_map_of_contains(s: Seq<BranchEntry>)
    ensures
        forall|k: (Seq<char>, Seq<char>)|
            #[trigger] map_of(s).dom().contains(k) <==> exists|i: int|
                0 <= i < s.len() && entry_key(s[i]) == k,
    decreases s.len(),
{
    if s.len() > 0 {
        lemma_map_of_contains(s.drop_last());
        assert forall|k: (Seq<char>, Seq<char>)| #[trigger]
            map_of(s).dom().contains(k) implies exists|i: int|
            0 <= i < s.len() && entry_key(s[i]) == k by {
            if k == entry_key(s.last()) {
                assert(entry_key(s[s.len() - 1]) == k);
            } else {
                assert(map_of(s.drop_last()).dom().contains(k));
                let i = choose|i: int| 0 <= i < s.drop_last().len() && entry_key(
                    s.drop_last()[i],
                ) == k;
                assert(s.drop_last()[i] == s[i]);
                assert(entry_key(s[i]) == k);
            }
        }
        assert forall|k: (Seq<char>, Seq<char>)|
            (exists|i: int| 0 <= i < s.len() && entry_key(s[i]) == k) implies #[trigger]
            map_of(s).dom().contains(k) by {
            let i = choose|i: int| 0 <= i < s.len() && entry_key(s[i]) == k;
            if i < s.len() - 1 {
                assert(entry_key(s.drop_last()[i]) == k);
            }
        }
    }
}

proof fn lemma_map_of_index(s: Seq<BranchEntry>, i: int)
    requires
        0 <= i < s.len(),
        forall|a: int, b: int| 0 <= a < b < s.len() ==> entry_key(s[a]) != entry_key(s[b]),
    ensures
        map_of(s).dom().contains(entry_key(s[i])),
        map_of(s)[entry_key(s[i])] == s[i].head@,
    decreases s.len(),
{
    lemma_map_of_contains(s);
    if i < s.len() - 1 {
        assert(entry_key(s[i]) != entry_key(s.last()));
        assert(s.drop_last()[i] == s[i]);
        lemma_map_of_index(s.drop_last(), i);
    }
}

proof fn lemma_map_of_update(s: Seq<BranchEntry>, i: int, e: BranchEntry)
    requires
        0 <= i < s.len(),
        forall|a: int, b: int| 0 <= a < b < s.len() ==> entry_key(s[a]) != entry_key(s[b]),
        entry_key(e) == entry_key(s[i]),
    ensures
        map_of(s.update(i, e)) == map_of(s).insert(entry_key(e), e.head@),
    decreases s.len(),
{
    let t = s.update(i, e);
    if i == s.len() - 1 {
        assert(t.drop_last() =~= s.drop_last());
        assert(t.last() == e);
        assert(map_of(t) =~= map_of(s).insert(entry_key(e), e.head@));
    } else {
        assert(t.drop_last() =~= s.drop_last().update(i, e));
        lemma_map_of_update(s.drop_last(), i, e);
        assert(t.last() == s.last());
        assert(entry_key(s[i]) != entry_key(s.last()));
        assert(map_of(t) == map_of(s.drop_last().update(i, e)).insert(
            entry_key(s.last()),
            s.last().head@,
        ));
        assert(map_of(t) =~= map_of(s).insert(entry_key(e), e.head@));
    }
}

/// The change DAG store and branch registry. All mutation goes through
/// branch registration, handler registration, and the commit protocol.
pub struct Storage {
    nodes: Vec<[u8; 32]>,
    edges: Vec<(usize, usize)>,
    branches: Vec<BranchEntry>,
    handlers: Vec<u32>,
}

impl Storage {
    /// The abstract state of this store.
    pub closed spec fn model(&self) -> StoreModel {
        StoreModel {
            nodes: ids_view(self.nodes@),
            edges: Seq::new(self.edges@.len(), |i: int| (self.edges@[i].0 as int, self.edges@[i].1 as int)),
            branches: map_of(self.branches@),
            handlers: self.handlers@,
        }
    }

    #[verifier::type_invariant]
    spec fn wf(&self) -> bool {
        &&& forall|i: int, j: int|
            0 <= i < j < self.nodes@.len() ==> self.nodes@[i]@ != self.nodes@[j]@
        &&& forall|i: int|
            0 <= i < self.edges@.len() ==> {
                &&& (#[trigger] self.edges@[i]).0 < self.nodes@.len()
                &&& self.edges@[i].1 < self.nodes@.len()
            }
        &&& forall|a: int, b: int|
            0 <= a < b < self.branches@.len() ==> entry_key(self.branches@[a]) != entry_key(
                self.branches@[b],
            )
    }

    /// An empty store: no nodes, no edges, no branches, no handlers.
    pub fn new() -> (s: Storage)
        ensures
            s.model() == (StoreModel {
                nodes: Seq::empty(),
                edges: Seq::empty(),
                branches: Map::empty(),
                handlers: Seq::empty(),
            }),
    {
        let s = Storage {
            nodes: Vec::new(),
            edges: Vec::new(),
            branches: Vec::new(),
            handlers: Vec::new(),
        };
        proof {
            assert(s.model().nodes =~= Seq::<Seq<u8>>::empty());
            assert(s.model().edges =~= Seq::<(int, int)>::empty());
        }
        s
    }

    /// Whether `id` is a node of the DAG.
    pub fn has_node(&self, id: &[u8; 32]) -> (r: bool)
        ensures
            r == has_node_in(self.model().nodes, id@),
    {
        let mut i: usize = 0;
        while i < self.nodes.len()
            invariant
                i <= self.nodes@.len(),
                forall|j: int| 0 <= j < i ==> self.model().nodes[j] != id@,
            decreases self.nodes@.len() - i,
        {
            if id_eq(&self.nodes[i], id) {
                assert(self.model().nodes[i as int] == id@);
                return true;
            }
            i = i + 1;
        }
        false
    }

    /// Whether `b` names a registered branch.
    pub fn has_branch(&self, b: &(String, String)) -> (r: bool)
        ensures
            r == self.model().branches.dom().contains((b.0@, b.1@)),
    {
        proof {
            use_type_invariant(self);
            lemma_map_of_contains(self.branches@);
        }
        let mut i: usize = 0;
        while i < self.branches.len()
            invariant
                i <= self.branches@.len(),
                forall|j: int| 0 <= j < i ==> entry_key(self.branches@[j]) != (b.0@, b.1@),
            decreases self.branches@.len() - i,
        {
            if self.branches[i].namespace == b.0 && self.branches[i].name == b.1 {
                proof {
                    lemma_map_of_contains(self.branches@);
                    assert(entry_key(self.branches@[i as int]) == (b.0@, b.1@));
                }
                return true;
            }
            i = i + 1;
        }
        proof {
            lemma_map_of_contains(self.branches@);
        }
        false
    }

    /// The head of branch `b`, if it is registered.
    pub fn branch_head(&self, b: &(String, String)) -> (r: Option<[u8; 32]>)
        ensures
            match r {
                Some(h) => self.model().branches.dom().contains((b.0@, b.1@))
                    && h@ == self.model().branches[(b.0@, b.1@)],
                None => !self.model().branches.dom().contains((b.0@, b.1@)),
            },
    {
        proof {
            use_type_invariant(self);
            lemma_map_of_contains(self.branches@);
        }
        let mut i: usize = 0;
        while i < self.branches.len()
            invariant
                i <= self.branches@.len(),
                forall|j: int| 0 <= j < i ==> entry_key(self.branches@[j]) != (b.0@, b.1@),
            decreases self.branches@.len() - i,
        {
            if self.branches[i].namespace == b.0 && self.branches[i].name == b.1 {
                proof {
                    use_type_invariant(self);
                    lemma_map_of_index(self.branches@, i as int);
                    assert(entry_key(self.branches@[i as int]) == (b.0@, b.1@));
                }
                return Some(self.branches[i].head);
            }
            i = i + 1;
        }
        proof {
            lemma_map_of_contains(self.branches@);
        }
        None
    }

    /// Register branch `(namespace, name)` with head `head`. Branch
    /// creation policy is the caller's concern; a commit requires its
    /// target branch to have been registered beforehand.
    pub fn register_branch(&mut self, namespace: String, name: String, head: [u8; 32])
        requires
            !old(self).model().branches.dom().contains((namespace@, name@)),
        ensures
            final(self).model() == (StoreModel {
                branches: old(self).model().branches.insert((namespace@, name@), head@),
                ..old(self).model()
            }),
    {
        proof {
            use_type_invariant(&*self);
            lemma_map_of_contains(self.branches@);
        }
        let ghost pre = self.branches@;
        let mut branches: Vec<BranchEntry> = Vec::new();
        core::mem::swap(&mut branches, &mut self.branches);
        branches.push(BranchEntry { namespace, name, head });
        self.branches = branches;
        proof {
            assert(self.branches@.drop_last() =~= pre);
            assert(self.model().nodes =~= old(self).model().nodes);
            assert(self.model().edges =~= old(self).model().edges);
        }
    }

    /// The number of registered change handlers.
    pub fn handler_count(&self) -> (n: usize)
        ensures
            n == self.model().handlers.len(),
    {
        self.handlers.len()
    }

    /// Register a change handler with the given priority and return its
    /// identifier. Handlers are invoked after a successful commit in
    /// registration order; the priority is recorded but does not reorder
    /// invocation.
    pub fn register_change_handler(&mut self, priority: u32) -> (id: usize)
        ensures
            final(self).model() == (StoreModel {
                handlers: old(self).model().handlers.push(priority),
                ..old(self).model()
            }),
            id == old(self).model().handlers.len(),
    {
        proof {
            use_type_invariant(&*self);
        }
        let id = self.handlers.len();
        let mut handlers: Vec<u32> = Vec::new();
        core::mem::swap(&mut handlers, &mut self.handlers);
        handlers.push(priority);
        self.handlers = handlers;
        proof {
            assert(self.model().nodes =~= old(self).model().nodes);
            assert(self.model().edges =~= old(self).model().edges);
        }
        id
    }

    /// The number of nodes in the DAG.
    pub fn node_count(&self) -> (n: usize)
        ensures
            n == self.model().nodes.len(),
    {
        self.nodes.len()
    }

    /// The identifier of the node at arena index `i`.
    pub fn node_at(&self, i: usize) -> (r: [u8; 32])
        requires
            i < self.model().nodes.len(),
        ensures
            r@ == self.model().nodes[i as int],
    {
        self.nodes[i]
    }

    /// The number of parent-to-child edges in the DAG.
    pub fn edge_count(&self) -> (n: usize)
        ensures
            n == self.model().edges.len(),
    {
        self.edges.len()
    }

    /// The edge at index `i`, as (parent arena index, child arena index).
    pub fn edge_at(&self, i: usize) -> (e: (usize, usize))
        requires
            i < self.model().edges.len(),
        ensures
            e.0 as int == self.model().edges[i as int].0,
            e.1 as int == self.model().edges[i as int].1,
    {
        self.edges[i]
    }

    /// The recorded priority of handler `id`.
    pub fn handler_priority(&self, id: usize) -> (p: u32)
        requires
            id < self.model().handlers.len(),
        ensures
            p == self.model().handlers[id as int],
    {
        self.handlers[id]
    }
}

/// The phase a commit in flight has reached.
#[derive(Clone, Copy, PartialEq, Eq, Structural, Debug)]
pub enum CommitPhase {
    /// Waiting for the backend to persist the change.
    Persisting,
    /// Waiting for the backend to move the branch pointer.
    SettingBranch,
    /// Waiting for the handler named by the session to report back.
    Notifying,
    Done,
    Failed,
}

/// The outcome of the action the driver last performed.
#[derive(Clone, Copy, PartialEq, Eq, Structural, Debug)]
pub enum CommitEvent {
    BackendOk,
    BackendFailed,
    HandlerOk,
    HandlerFailed,
}

/// What the driver of a commit must do next.
#[derive(Debug)]
pub enum CommitAction {
    /// Ask the backend to move the branch pointer to the committed
    /// identifier; the in-memory head moves once the backend reports
    /// success.
    UpdateBranch,
    /// Invoke the handler with this identifier and await its optional
    /// deferred action.
    InvokeHandler(usize),
    /// The commit completed, handlers included.
    Succeeded,
    /// The commit stopped with this error; mutations already applied stay
    /// in effect.
    Failed(CommitError),
}

/// A commit in flight: the identifier being committed, the target branch,
/// and how far the protocol has advanced.
pub struct CommitSession {
    phase: CommitPhase,
    content_id: [u8; 32],
    namespace: String,
    name: String,
    next_handler: usize,
}

/// The abstract state of a commit in flight.
pub ghost struct SessionModel {
    pub phase: CommitPhase,
    pub id: Seq<u8>,
    pub key: (Seq<char>, Seq<char>),
    pub next_handler: int,
}

impl CommitSession {
    pub closed spec fn model(&self) -> SessionModel {
        SessionModel {
            phase: self.phase,
            id: self.content_id@,
            key: (self.namespace@, self.name@),
            next_handler: self.next_handler as int,
        }
    }

    pub fn phase(&self) -> (p: CommitPhase)
        ensures
            p == self.model().phase,
    {
        self.phase
    }

    pub fn content_id(&self) -> (r: [u8; 32])
        ensures
            r@ == self.model().id,
    {
        self.content_id
    }

    pub fn next_handler(&self) -> (i: usize)
        ensures
            i == self.model().next_handler,
    {
        self.next_handler
    }
}

/// The shape of a `CommitAction`, for stating what a step returns.
pub ghost enum ActionKind {
    UpdateBranch,
    InvokeHandler(int),
    Succeeded,
    FailedBackend,
    FailedHandler(int),
    FailedPrecondition,
}

pub open spec fn action_kind(a: CommitAction) -> ActionKind {
    match a {
        CommitAction::UpdateBranch => ActionKind::UpdateBranch,
        CommitAction::InvokeHandler(i) => ActionKind::InvokeHandler(i as int),
        CommitAction::Succeeded => ActionKind::Succeeded,
        CommitAction::Failed(CommitError::BackendFailure) => ActionKind::FailedBackend,
        CommitAction::Failed(CommitError::HandlerFailure(i)) => ActionKind::FailedHandler(
            i as int,
        ),
        CommitAction::Failed(_) => ActionKind::FailedPrecondition,
    }
}

/// How a commit opens.
pub ghost enum BeginKind {
    /// Preconditions hold; the node and its parent edges are in the arena
    /// and the backend should be asked to persist the change.
    Started,
    NoBranch,
    NoParent(Seq<u8>),
}

/// Opening a commit of `id` with the given declared parents against branch
/// `key`: both preconditions are checked before any mutation, branch first;
/// when they hold, the node and exactly its declared parent edges join the
/// arena, while branch heads wait for the backend.
pub open spec fn spec_begin(
    s: StoreModel,
    parents: Seq<Seq<u8>>,
    id: Seq<u8>,
    key: (Seq<char>, Seq<char>),
) -> (StoreModel, BeginKind) {
    if !s.branches.dom().contains(key) {
        (s, BeginKind::NoBranch)
    } else {
        match first_missing_parent(s.nodes, parents) {
            Some(p) => (s, BeginKind::NoParent(p)),
            None => (
                StoreModel {
                    nodes: s.nodes.push(id),
                    edges: s.edges + parent_edges(s.nodes, parents, s.nodes.len() as int),
                    ..s
                },
                BeginKind::Started,
            ),
        }
    }
}

/// Whether the protocol can take a step: the event must answer the action
/// the phase is waiting on, the target branch must still be registered
/// while the head update is pending, and the awaited handler must exist.
pub open spec fn step_enabled(s: StoreModel, t: SessionModel, ev: CommitEvent) -> bool {
    match t.phase {
        CommitPhase::Persisting => ev == CommitEvent::BackendOk || ev
            == CommitEvent::BackendFailed,
        CommitPhase::SettingBranch => (ev == CommitEvent::BackendOk || ev
            == CommitEvent::BackendFailed) && s.branches.dom().contains(t.key),
        CommitPhase::Notifying => (ev == CommitEvent::HandlerOk || ev
            == CommitEvent::HandlerFailed) && 0 <= t.next_handler < s.handlers.len(),
        CommitPhase::Done => false,
        CommitPhase::Failed => false,
    }
}

/// One step of the commit protocol. Once the backend has persisted the
/// change, the backend is asked to move the branch pointer, and only its
/// confirmation moves the in-memory head; no failure rolls back a mutation
/// already made. Handlers run in registration order, and the first failure
/// stops the rest.
pub open spec fn spec_step(s: StoreModel, t: SessionModel, ev: CommitEvent) -> (
    StoreModel,
    SessionModel,
    ActionKind,
) {
    match (t.phase, ev) {
        (CommitPhase::Persisting, CommitEvent::BackendOk) => (
            s,
            SessionModel { phase: CommitPhase::SettingBranch, ..t },
            ActionKind::UpdateBranch,
        ),
        (CommitPhase::Persisting, CommitEvent::BackendFailed) => (
            s,
            SessionModel { phase: CommitPhase::Failed, ..t },
            ActionKind::FailedBackend,
        ),
        (CommitPhase::SettingBranch, CommitEvent::BackendOk) => if s.handlers.len() == 0 {
            (
                StoreModel { branches: s.branches.insert(t.key, t.id), ..s },
                SessionModel { phase: CommitPhase::Done, ..t },
                ActionKind::Succeeded,
            )
        } else {
            (
                StoreModel { branches: s.branches.insert(t.key, t.id), ..s },
                SessionModel { phase: CommitPhase::Notifying, next_handler: 0, ..t },
                ActionKind::InvokeHandler(0),
            )
        },
        (CommitPhase::SettingBranch, CommitEvent::BackendFailed) => (
            s,
            SessionModel { phase: CommitPhase::Failed, ..t },
            ActionKind::FailedBackend,
        ),
        (CommitPhase::Notifying, CommitEvent::HandlerOk) => if t.next_handler + 1
            < s.handlers.len() {
            (
                s,
                SessionModel { next_handler: t.next_handler + 1, ..t },
                ActionKind::InvokeHandler(t.next_handler + 1),
            )
        } else {
            (s, SessionModel { phase: CommitPhase::Done, ..t }, ActionKind::Succeeded)
        },
        (CommitPhase::Notifying, CommitEvent::HandlerFailed) => (
            s,
            SessionModel { phase: CommitPhase::Failed, ..t },
            ActionKind::FailedHandler(t.next_handler),
        ),
        _ => (s, t, ActionKind::Succeeded),
    }
}

proof fn lemma_first_missing_skip(nodes: Seq<Seq<u8>>, parents: Seq<Seq<u8>>, i: int)
    requires
        0 <= i <= parents.len(),
        forall|j: int| 0 <= j < i ==> has_node_in(nodes, #[trigger] parents[j]),
    ensures
        first_missing_parent(nodes, parents) == first_missing_parent(nodes, parents.skip(i)),
    decreases i,
{
    if i > 0 {
        assert(has_node_in(nodes, parents[0]));
        assert forall|j: int| 0 <= j < i - 1 implies has_node_in(
            nodes,
            #[trigger] parents.drop_first()[j],
        ) by {
            assert(parents.drop_first()[j] == parents[j + 1]);
        }
        lemma_first_missing_skip(nodes, parents.drop_first(), i - 1);
        assert(parents.drop_first().skip(i - 1) =~= parents.skip(i));
    } else {
        assert(parents.skip(0) =~= parents);
    }
}

/// When no declared parent is reported missing, every one of them is a
/// node of the arena.
pub proof fn lemma_all_parents_present(nodes: Seq<Seq<u8>>, parents: Seq<Seq<u8>>)
    requires
        first_missing_parent(nodes, parents) is None,
    ensures
        forall|i: int| 0 <= i < parents.len() ==> has_node_in(nodes, #[trigger] parents[i]),
    decreases parents.len(),
{
    if parents.len() > 0 {
        lemma_all_parents_present(nodes, parents.drop_first());
        assert forall|i: int| 0 <= i < parents.len() implies has_node_in(
            nodes,
            #[trigger] parents[i],
        ) by {
            if i > 0 {
                assert(parents[i] == parents.drop_first()[i - 1]);
            }
        }
    }
}

impl Storage {
    /// The arena index of `id`, for wiring edges.
    fn find_node_index(&self, id: &[u8; 32]) -> (r: usize)
        requires
            has_node_in(self.model().nodes, id@),
        ensures
            r < self.model().nodes.len(),
            self.model().nodes[r as int] == id@,
    {
        let mut i: usize = 0;
        while i < self.nodes.len()
            invariant
                i <= self.nodes@.len(),
                has_node_in(self.model().nodes, id@),
                forall|j: int| 0 <= j < i ==> self.model().nodes[j] != id@,
            decreases self.nodes@.len() - i,
        {
            if id_eq(&self.nodes[i], id) {
                proof {
                    assert(self.model().nodes[i as int] == id@);
                }
                return i;
            }
            i = i + 1;
        }
        proof {
            let w = choose|j: int|
                0 <= j < self.model().nodes.len() && self.model().nodes[j] == id@;
            assert(false);
        }
        0
    }

    /// Move the in-memory head of a registered branch to `id`.
    fn set_branch_head(&mut self, namespace: &String, name: &String, id: [u8; 32])
        requires
            old(self).model().branches.dom().contains((namespace@, name@)),
        ensures
            final(self).model() == (StoreModel {
                branches: old(self).model().branches.insert((namespace@, name@), id@),
                ..old(self).model()
            }),
    {
        proof {
            use_type_invariant(&*self);
            lemma_map_of_contains(self.branches@);
        }
        let ghost pre = self.branches@;
        let mut branches: Vec<BranchEntry> = Vec::new();
        core::mem::swap(&mut branches, &mut self.branches);
        let mut i: usize = 0;
        while i < branches.len()
            invariant
                branches@ == pre,
                pre == old(self).branches@,
                i <= pre.len(),
                forall|j: int| 0 <= j < i ==> entry_key(pre[j]) != (namespace@, name@),
                exists|j: int| 0 <= j < pre.len() && entry_key(pre[j]) == (namespace@, name@),
                self.nodes@ == old(self).nodes@,
                self.edges@ == old(self).edges@,
                self.handlers@ == old(self).handlers@,
                self.branches@.len() == 0,
                forall|a: int, b: int|
                    0 <= a < b < pre.len() ==> entry_key(pre[a]) != entry_key(pre[b]),
            decreases pre.len() - i,
        {
            if branches[i].namespace == *namespace && branches[i].name == *name {
                proof {
                    use_type_invariant(&*self);
                    assert(entry_key(pre[i as int]) == (namespace@, name@));
                }
                let e = branches.remove(i);
                branches.insert(i, BranchEntry { namespace: e.namespace, name: e.name, head: id });
                proof {
                    let ne = branches@[i as int];
                    assert(branches@ =~= pre.update(i as int, ne));
                    assert(entry_key(ne) == entry_key(pre[i as int]));
                    assert(ne.head@ == id@);
                    lemma_map_of_update(pre, i as int, ne);
                    assert forall|a: int, b_: int|
                        0 <= a < b_ < branches@.len() implies entry_key(branches@[a])
                        != entry_key(branches@[b_]) by {
                        assert(entry_key(branches@[a]) == entry_key(pre[a]));
                        assert(entry_key(branches@[b_]) == entry_key(pre[b_]));
                    }
                    assert(forall|i2: int, j2: int|
                        0 <= i2 < j2 < self.nodes@.len() ==> self.nodes@[i2]@
                            != self.nodes@[j2]@);
                    assert(forall|i2: int|
                        0 <= i2 < self.edges@.len() ==> ((#[trigger] self.edges@[i2]).0
                            < self.nodes@.len() && self.edges@[i2].1 < self.nodes@.len()));
                }
                self.branches = branches;
                proof {
                    assert(self.model().nodes =~= old(self).model().nodes);
                    assert(self.model().edges =~= old(self).model().edges);
                    assert(self.model().branches == old(self).model().branches.insert(
                        (namespace@, name@),
                        id@,
                    ));
                }
                return;
            }
            i = i + 1;
        }
        proof {
            let w = choose|j: int| 0 <= j < pre.len() && entry_key(pre[j]) == (namespace@, name@);
            assert(false);
        }
        self.branches = branches;
    }

    /// Open a commit of `m` against branch `b`: check that the branch is
    /// registered and that every declared parent is a node of the DAG, in
    /// that order, and only then insert the new node with exactly its
    /// declared parent edges. The returned session drives the rest of the
    /// protocol; a precondition failure leaves the store untouched. The
    /// identifier being committed must be new to the DAG: committing an
    /// identifier twice is outside the protocol.
    pub fn add_change_to_branch<P: crate::digest::Digestable>(
        &mut self,
        m: &crate::transport::ChangeMessage<P>,
        b: &(String, String),
    ) -> (r: Result<CommitSession, CommitError>)
        requires
            !has_node_in(old(self).model().nodes, m.sha256@),
        ensures
            ({
                let (s2, k) = spec_begin(
                    old(self).model(),
                    ids_view(m.change.parents@),
                    m.sha256@,
                    (b.0@, b.1@),
                );
                &&& final(self).model() == s2
                &&& match r {
                    Ok(sess) => k == BeginKind::Started && sess.model() == (SessionModel {
                        phase: CommitPhase::Persisting,
                        id: m.sha256@,
                        key: (b.0@, b.1@),
                        next_handler: 0,
                    }),
                    Err(CommitError::BranchNotFound(e)) => k == BeginKind::NoBranch && e.branch.0@
                        == b.0@ && e.branch.1@ == b.1@,
                    Err(CommitError::MissingParent(e)) => k matches BeginKind::NoParent(p)
                        && e.parent@ == p,
                    Err(_) => false,
                }
            }),
    {
        proof {
            use_type_invariant(&*self);
        }
        let ghost parents_v = ids_view(m.change.parents@);
        if !self.has_branch(b) {
            return Err(CommitError::BranchNotFound(NoSuchBranch::from((
                b.0.clone(),
                b.1.clone(),
            ))));
        }
        let mut i: usize = 0;
        while i < m.change.parents.len()
            invariant
                i <= m.change.parents@.len(),
                parents_v == ids_view(m.change.parents@),
                old(self).model().branches.dom().contains((b.0@, b.1@)),
                forall|j: int| 0 <= j < i ==> has_node_in(self.model().nodes, #[trigger] parents_v[j]),
                *self == *old(self),
            decreases m.change.parents@.len() - i,
        {
            if !self.has_node(&m.change.parents[i]) {
                proof {
                    assert(parents_v[i as int] == m.change.parents@[i as int]@);
                    lemma_first_missing_skip(self.model().nodes, parents_v, i as int);
                    assert(parents_v.skip(i as int)[0] == parents_v[i as int]);
                    assert(first_missing_parent(self.model().nodes, parents_v) == Some(
                        parents_v[i as int],
                    ));
                }
                return Err(CommitError::MissingParent(MissingParent::from(
                    m.change.parents[i],
                )));
            }
            i = i + 1;
        }
        proof {
            lemma_first_missing_skip(self.model().nodes, parents_v, parents_v.len() as int);
            assert(parents_v.skip(parents_v.len() as int) =~= Seq::<Seq<u8>>::empty());
            assert(first_missing_parent(self.model().nodes, parents_v) is None);
        }
        let ghost pre_nodes = self.nodes@;
        let ghost pre_edges = self.edges@;
        let ghost pre_model = self.model();
        let node: usize = self.nodes.len();
        let mut nodes: Vec<[u8; 32]> = Vec::new();
        let mut edges: Vec<(usize, usize)> = Vec::new();
        core::mem::swap(&mut edges, &mut self.edges);
        core::mem::swap(&mut nodes, &mut self.nodes);
        nodes.push(m.sha256);
        proof {
            assert forall|a: int, b_: int|
                0 <= a < b_ < nodes@.len() implies nodes@[a]@ != nodes@[b_]@ by {
                if b_ == nodes@.len() - 1 {
                    if nodes@[a]@ == m.sha256@ {
                        assert(ids_view(pre_nodes)[a] == m.sha256@);
                        assert(has_node_in(ids_view(pre_nodes), m.sha256@));
                    }
                }
            }
        }
        self.nodes = nodes;
        proof {
            assert(self.model().nodes =~= pre_model.nodes.push(m.sha256@));
            assert forall|j: int|
                0 <= j < parents_v.len() implies has_node_in(
                self.model().nodes,
                #[trigger] parents_v[j],
            ) by {
                let w = choose|w: int|
                    0 <= w < pre_model.nodes.len() && pre_model.nodes[w] == parents_v[j];
                assert(self.model().nodes[w] == parents_v[j]);
            }
        }
        let mut i: usize = 0;
        while i < m.change.parents.len()
            invariant
                i <= m.change.parents@.len(),
                parents_v == ids_view(m.change.parents@),
                node == pre_model.nodes.len(),
                self.nodes@ == pre_nodes.push(m.sha256),
                self.model().nodes == pre_model.nodes.push(m.sha256@),
                self.edges@.len() == 0,
                self.branches@ == old(self).branches@,
                self.handlers@ == old(self).handlers@,
                edges@.len() == pre_edges.len() + i,
                forall|j: int| 0 <= j < pre_edges.len() ==> edges@[j] == pre_edges[j],
                forall|j: int|
                    0 <= j < i ==> {
                        &&& (#[trigger] edges@[pre_edges.len() + j]).0 as int == node_index(
                            pre_model.nodes,
                            parents_v[j],
                        )
                        &&& edges@[pre_edges.len() + j].1 == node
                    },
                forall|j: int| 0 <= j < parents_v.len() ==> has_node_in(
                    self.model().nodes,
                    #[trigger] parents_v[j],
                ),
                forall|j: int| 0 <= j < parents_v.len() ==> has_node_in(
                    pre_model.nodes,
                    #[trigger] parents_v[j],
                ),
                forall|a: int, b_: int|
                    0 <= a < b_ < pre_model.nodes.len() ==> pre_model.nodes[a]
                        != pre_model.nodes[b_],
                !has_node_in(pre_model.nodes, m.sha256@),
            decreases m.change.parents@.len() - i,
        {
            proof {
                assert(parents_v[i as int] == m.change.parents@[i as int]@);
            }
            let p_idx = self.find_node_index(&m.change.parents[i]);
            proof {
                assert(self.model().nodes[p_idx as int] == parents_v[i as int]);
                assert(p_idx != node) by {
                    if p_idx == node {
                        assert(self.model().nodes[node as int] == m.sha256@);
                        assert(has_node_in(pre_model.nodes, m.sha256@));
                    }
                }
                assert(pre_model.nodes[p_idx as int] == parents_v[i as int]);
            }
            edges.push((p_idx, node));
            proof {
                assert(edges@[pre_edges.len() + i as int] == (p_idx as usize, node));
                lemma_node_index_of(pre_model.nodes, parents_v[i as int], p_idx as int);
            }
            i = i + 1;
        }
        proof {
            use_type_invariant(&*self);
            assert forall|j: int|
                0 <= j < edges@.len() implies ((#[trigger] edges@[j]).0 < self.nodes@.len()
                && edges@[j].1 < self.nodes@.len()) by {
                if j < pre_edges.len() {
                    assert(edges@[j] == pre_edges[j]);
                } else {
                    let k = j - pre_edges.len();
                    assert((edges@[pre_edges.len() + k]).0 as int == node_index(
                        pre_model.nodes,
                        parents_v[k],
                    ));
                    assert(has_node_in(pre_model.nodes, parents_v[k]));
                    let w = node_index(pre_model.nodes, parents_v[k]);
                    assert(0 <= w < pre_model.nodes.len() && pre_model.nodes[w] == parents_v[k]);
                    assert(pre_model.nodes.len() == pre_nodes.len());
                    assert(self.nodes@.len() == pre_nodes.len() + 1);
                }
            }
        }
        self.edges = edges;
        proof {
            let target = pre_model.edges + parent_edges(
                pre_model.nodes,
                parents_v,
                pre_model.nodes.len() as int,
            );
            assert forall|j: int|
                0 <= j < self.model().edges.len() implies self.model().edges[j] == target[j] by {
                if j < pre_edges.len() {
                    assert(edges@[j] == pre_edges[j]);
                } else {
                    let k = j - pre_edges.len();
                    assert((edges@[pre_edges.len() + k]).0 as int == node_index(
                        pre_model.nodes,
                        parents_v[k],
                    ));
                    assert(edges@[pre_edges.len() + k].1 == node);
                }
            }
        }
        let sess = CommitSession {
            phase: CommitPhase::Persisting,
            content_id: m.sha256,
            namespace: b.0.clone(),
            name: b.1.clone(),
            next_handler: 0,
        };
        proof {
            assert(self.model().edges =~= pre_model.edges + parent_edges(
                pre_model.nodes,
                parents_v,
                pre_model.nodes.len() as int,
            ));
            assert(self.model().branches == pre_model.branches);
            assert(self.model().handlers == pre_model.handlers);
        }
        Ok(sess)
    }

    /// Take one step of the commit protocol: report the outcome of the
    /// action last requested, and receive the next action.
    pub fn commit_step(&mut self, sess: &mut CommitSession, ev: CommitEvent) -> (r: CommitAction)
        requires
            step_enabled(old(self).model(), old(sess).model(), ev),
        ensures
            (final(self).model(), final(sess).model(), action_kind(r)) == spec_step(
                old(self).model(),
                old(sess).model(),
                ev,
            ),
    {
        match (sess.phase, ev) {
            (CommitPhase::Persisting, CommitEvent::BackendOk) => {
                sess.phase = CommitPhase::SettingBranch;
                CommitAction::UpdateBranch
            },
            (CommitPhase::Persisting, CommitEvent::BackendFailed) => {
                sess.phase = CommitPhase::Failed;
                CommitAction::Failed(CommitError::BackendFailure)
            },
            (CommitPhase::SettingBranch, CommitEvent::BackendOk) => {
                self.set_branch_head(&sess.namespace, &sess.name, sess.content_id);
                if self.handlers.len() == 0 {
                    sess.phase = CommitPhase::Done;
                    CommitAction::Succeeded
                } else {
                    sess.phase = CommitPhase::Notifying;
                    sess.next_handler = 0;
                    CommitAction::InvokeHandler(0)
                }
            },
            (CommitPhase::SettingBranch, CommitEvent::BackendFailed) => {
                sess.phase = CommitPhase::Failed;
                CommitAction::Failed(CommitError::BackendFailure)
            },
            (CommitPhase::Notifying, CommitEvent::HandlerOk) => {
                let n = self.handlers.len();
                proof {
                    assert(sess.next_handler < n);
                }
                if sess.next_handler + 1 < n {
                    sess.next_handler = sess.next_handler + 1;
                    CommitAction::InvokeHandler(sess.next_handler)
                } else {
                    sess.phase = CommitPhase::Done;
                    CommitAction::Succeeded
                }
            },
            (CommitPhase::Notifying, CommitEvent::HandlerFailed) => {
                let h = sess.next_handler;
                sess.phase = CommitPhase::Failed;
                CommitAction::Failed(CommitError::HandlerFailure(h))
            },
            _ => {
                proof {
                    assert(false);
                }
                CommitAction::Succeeded
            },
        }
    }
}

/// With unique identifiers, any index holding `id` is the one
/// `node_index` names.
proof fn lemma_node_index_of(nodes: Seq<Seq<u8>>, id: Seq<u8>, i: int)
    requires
        0 <= i < nodes.len(),
        nodes[i] == id,
        forall|a: int, b: int| 0 <= a < b < nodes.len() ==> nodes[a] != nodes[b],
    ensures
        node_index(nodes, id) == i,
{
    assert(has_node_in(nodes, id));
    let j = node_index(nodes, id);
    assert(0 <= j < nodes.len() && nodes[j] == id);
    if i < j {
        assert(nodes[i] != nodes[j]);
    } else if j < i {
        assert(nodes[j] != nodes[i]);
    }
}

/// The session a freshly opened commit drives.
pub open spec fn started_session(id: Seq<u8>, key: (Seq<char>, Seq<char>)) -> SessionModel {
    SessionModel { phase: CommitPhase::Persisting, id, key, next_handler: 0 }
}

/// The store and session after taking the protocol steps for each event of
/// `evs` in turn.
pub open spec fn run_events(s: StoreModel, t: SessionModel, evs: Seq<CommitEvent>) -> (
    StoreModel,
    SessionModel,
)
    decreases evs.len(),
{
    if evs.len() == 0 {
        (s, t)
    } else {
        let r = spec_step(s, t, evs[0]);
        run_events(r.0, r.1, evs.drop_first())
    }
}

/// A commit that targets an unregistered branch is refused, and neither
/// the DAG nor the branch registry changes.
pub proof fn lemma_unregistered_branch_rejected(
    s: StoreModel,
    parents: Seq<Seq<u8>>,
    id: Seq<u8>,
    key: (Seq<char>, Seq<char>),
)
    requires
        !s.branches.dom().contains(key),
    ensures
        spec_begin(s, parents, id, key) == (s, BeginKind::NoBranch),
{
}

/// A commit that declares a parent the DAG does not hold is refused with
/// the first such parent, and neither the DAG nor the branch registry
/// changes.
pub proof fn lemma_missing_parent_rejected(
    s: StoreModel,
    parents: Seq<Seq<u8>>,
    id: Seq<u8>,
    key: (Seq<char>, Seq<char>),
)
    requires
        s.branches.dom().contains(key),
        first_missing_parent(s.nodes, parents) is Some,
    ensures
        spec_begin(s, parents, id, key).0 == s,
        spec_begin(s, parents, id, key).1 matches BeginKind::NoParent(p) && Some(p)
            == first_missing_parent(s.nodes, parents),
{
}

/// A failure never mutates the store: a backend failure before the head
/// has moved leaves the old head, and any failure after a mutation leaves
/// that mutation in effect, since no step rolls anything back.
pub proof fn lemma_failure_keeps_state(s: StoreModel, t: SessionModel, ev: CommitEvent)
    requires
        ev == CommitEvent::BackendFailed || ev == CommitEvent::HandlerFailed,
    ensures
        spec_step(s, t, ev).0 == s,
{
}

/// Handlers are notified in registration order: from handler `i` a success
/// moves to handler `i + 1`, and a failure stops the pipeline reporting
/// handler `i`, in both cases leaving the store as it is.
pub proof fn lemma_handlers_in_order(s: StoreModel, t: SessionModel)
    requires
        t.phase == CommitPhase::Notifying,
        0 <= t.next_handler,
        t.next_handler + 1 < s.handlers.len(),
    ensures
        spec_step(s, t, CommitEvent::HandlerOk).2 == ActionKind::InvokeHandler(t.next_handler + 1),
        spec_step(s, t, CommitEvent::HandlerFailed).2 == ActionKind::FailedHandler(t.next_handler),
        spec_step(s, t, CommitEvent::HandlerOk).0 == s,
        spec_step(s, t, CommitEvent::HandlerFailed).0 == s,
{
}

/// A successful commit gives the new node exactly its declared parent
/// edges, in declaration order, and touches no edge of any node already
/// present.
pub proof fn lemma_commit_wires_declared_parents(
    s: StoreModel,
    parents: Seq<Seq<u8>>,
    id: Seq<u8>,
    key: (Seq<char>, Seq<char>),
)
    requires
        model_wf(s),
        s.branches.dom().contains(key),
        first_missing_parent(s.nodes, parents) is None,
    ensures
        spec_begin(s, parents, id, key).1 == BeginKind::Started,
        ({
            let s1 = spec_begin(s, parents, id, key).0;
            &&& s1.nodes == s.nodes.push(id)
            &&& s1.branches == s.branches
            &&& s1.edges.len() == s.edges.len() + parents.len()
            &&& forall|e: int|
                0 <= e < s.edges.len() ==> s1.edges[e] == s.edges[e] && (#[trigger] s.edges[e]).1
                    != s.nodes.len()
            &&& forall|i: int|
                0 <= i < parents.len() ==> #[trigger] s1.edges[s.edges.len() + i] == (
                    node_index(s.nodes, parents[i]),
                    s.nodes.len() as int,
                )
            &&& forall|i: int|
                0 <= i < parents.len() ==> s.nodes[node_index(s.nodes, #[trigger] parents[i])]
                    == parents[i]
        }),
{
    lemma_all_parents_present(s.nodes, parents);
    assert forall|i: int|
        0 <= i < parents.len() implies s.nodes[node_index(s.nodes, #[trigger] parents[i])]
        == parents[i] by {
        assert(has_node_in(s.nodes, parents[i]));
    }
}

/// A commit that passes its preconditions keeps the DAG well formed: the
/// new identifier is 32 bytes and fresh, and every new edge connects
/// existing nodes.
pub proof fn lemma_begin_preserves_wf(
    s: StoreModel,
    parents: Seq<Seq<u8>>,
    id: Seq<u8>,
    key: (Seq<char>, Seq<char>),
)
    requires
        model_wf(s),
        id.len() == 32,
        !has_node_in(s.nodes, id),
    ensures
        model_wf(spec_begin(s, parents, id, key).0),
{
    let s1 = spec_begin(s, parents, id, key).0;
    if s.branches.dom().contains(key) && first_missing_parent(s.nodes, parents) is None {
        lemma_all_parents_present(s.nodes, parents);
        assert forall|i: int, j: int|
            0 <= i < j < s1.nodes.len() implies s1.nodes[i] != s1.nodes[j] by {
            if j == s1.nodes.len() - 1 {
                if s1.nodes[i] == id {
                    assert(s.nodes[i] == id);
                }
            }
        }
        assert forall|i: int|
            0 <= i < s1.edges.len() implies {
            &&& 0 <= (#[trigger] s1.edges[i]).0 < s1.nodes.len()
            &&& 0 <= s1.edges[i].1 < s1.nodes.len()
        } by {
            if i >= s.edges.len() {
                let k = i - s.edges.len();
                assert(s1.edges[i] == (node_index(s.nodes, parents[k]), s.nodes.len() as int));
                assert(has_node_in(s.nodes, parents[k]));
            }
        }
    }
}

/// No step of the protocol disturbs the DAG's well-formedness: a step
/// touches at most the branch registry.
pub proof fn lemma_step_preserves_wf(s: StoreModel, t: SessionModel, ev: CommitEvent)
    requires
        model_wf(s),
    ensures
        model_wf(spec_step(s, t, ev).0),
{
    assert(spec_step(s, t, ev).0.nodes == s.nodes);
    assert(spec_step(s, t, ev).0.edges == s.edges);
}

proof fn lemma_run_handlers_ok(s: StoreModel, t: SessionModel)
    requires
        t.phase == CommitPhase::Notifying,
        0 <= t.next_handler < s.handlers.len(),
    ensures
        ({
            let r = run_events(
                s,
                t,
                Seq::new((s.handlers.len() - t.next_handler) as nat, |i: int| CommitEvent::HandlerOk),
            );
            &&& r.0 == s
            &&& r.1.phase == CommitPhase::Done
            &&& r.1.id == t.id
            &&& r.1.key == t.key
        }),
    decreases s.handlers.len() - t.next_handler,
{
    let n = (s.handlers.len() - t.next_handler) as nat;
    let evs = Seq::new(n, |i: int| CommitEvent::HandlerOk);
    let step = spec_step(s, t, CommitEvent::HandlerOk);
    assert(evs[0] == CommitEvent::HandlerOk);
    assert(run_events(s, t, evs) == run_events(step.0, step.1, evs.drop_first()));
    assert(step.0 == s);
    if t.next_handler + 1 < s.handlers.len() {
        lemma_run_handlers_ok(s, step.1);
        assert(evs.drop_first() =~= Seq::new(
            (s.handlers.len() - step.1.next_handler) as nat,
            |i: int| CommitEvent::HandlerOk,
        ));
    } else {
        assert(evs.drop_first() =~= Seq::new(0, |i: int| CommitEvent::HandlerOk));
        assert(run_events(step.0, step.1, evs.drop_first()) == (step.0, step.1));
        assert(step.1.phase == CommitPhase::Done);
    }
}

/// A change with no parents committed to a registered branch passes the
/// preconditions, and when the backend accepts both requests and every
/// handler succeeds, the commit runs to completion: the branch head is the
/// committed identifier, the DAG gained exactly the one node and no edge,
/// and nothing else changed.
pub proof fn lemma_root_commit_succeeds(s: StoreModel, id: Seq<u8>, key: (Seq<char>, Seq<char>))
    requires
        s.branches.dom().contains(key),
    ensures
        spec_begin(s, Seq::empty(), id, key).1 == BeginKind::Started,
        ({
            let s1 = spec_begin(s, Seq::empty(), id, key).0;
            let evs = seq![CommitEvent::BackendOk, CommitEvent::BackendOk] + Seq::new(
                s.handlers.len(),
                |i: int| CommitEvent::HandlerOk,
            );
            let r = run_events(s1, started_session(id, key), evs);
            &&& r.1.phase == CommitPhase::Done
            &&& r.0.branches == s.branches.insert(key, id)
            &&& r.0.nodes == s.nodes.push(id)
            &&& r.0.edges == s.edges
            &&& r.0.handlers == s.handlers
        }),
{
    let s1 = spec_begin(s, Seq::empty(), id, key).0;
    assert(first_missing_parent(s.nodes, Seq::<Seq<u8>>::empty()) is None);
    assert(s1.edges =~= s.edges);
    let evs = seq![CommitEvent::BackendOk, CommitEvent::BackendOk] + Seq::new(
        s.handlers.len(),
        |i: int| CommitEvent::HandlerOk,
    );
    let t0 = started_session(id, key);
    let r1 = spec_step(s1, t0, CommitEvent::BackendOk);
    assert(evs.len() == 2 + s.handlers.len());
    assert(evs[0] == CommitEvent::BackendOk);
    let evs1 = evs.drop_first();
    assert(evs1[0] == evs[1]);
    assert(evs1[0] == CommitEvent::BackendOk);
    let r2 = spec_step(r1.0, r1.1, CommitEvent::BackendOk);
    let evs2 = evs1.drop_first();
    assert(r1.0 == s1);
    assert(r2.0.branches == s.branches.insert(key, id));
    assert(run_events(s1, t0, evs) == run_events(r1.0, r1.1, evs1));
    assert(run_events(r1.0, r1.1, evs1) == run_events(r2.0, r2.1, evs2));
    if s.handlers.len() == 0 {
        assert(r2.1.phase == CommitPhase::Done);
        assert(evs2 =~= Seq::<CommitEvent>::empty());
        assert(run_events(r2.0, r2.1, evs2) == (r2.0, r2.1));
    } else {
        assert(r2.1.phase == CommitPhase::Notifying && r2.1.next_handler == 0);
        lemma_run_handlers_ok(r2.0, r2.1);
        assert forall|j: int| 0 <= j < evs2.len() implies evs2[j] == CommitEvent::HandlerOk by {
            assert(evs2[j] == evs[j + 2]);
        }
        assert(evs2 =~= Seq::new(
            (r2.0.handlers.len() - r2.1.next_handler) as nat,
            |i: int| CommitEvent::HandlerOk,
        ));
    }
}

} // verus!
