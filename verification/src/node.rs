use vstd::prelude::*;
use crate::state::State;
use crate::strmap::{seq_has_key, seq_key_idx, seq_keys_unique, str_eq};
use crate::value::{Val, NodeValue};
use crate::signature::{Signature, SigV};
use crate::sealed::SealedNode;

verus! {

/// The mathematical content of a shared state or parameter map.
pub type StateV = Map<Seq<char>, Val>;

/// What a behaviour's sealing capability declares: its signature and task
/// identifier.
pub struct SealCapV {
    pub signature: SigV,
    pub task_id: Seq<char>,
}

/// Executable form of a sealing capability.
pub struct SealInfo {
    pub signature: Signature,
    pub task_id: String,
}

impl SealInfo {
    pub open spec fn dv(self) -> SealCapV {
        SealCapV { signature: self.signature.dv(), task_id: self.task_id@ }
    }
}

/// What a behaviour's prompting capability declares: its instruction and an
/// optional model override.
pub struct PromptCapV {
    pub instruction: Seq<char>,
    pub model: Option<Seq<char>>,
}

/// Executable form of a prompting capability.
pub struct PromptInfo {
    pub instruction: String,
    pub model: Option<String>,
}

impl PromptInfo {
    pub open spec fn dv(self) -> PromptCapV {
        PromptCapV { instruction: self.instruction@, model: self.model.deep_view() }
    }
}

pub open spec fn seal_info_view(r: Option<SealInfo>) -> Option<SealCapV> {
    match r {
        Some(i) => Some(i.dv()),
        None => None,
    }
}

pub open spec fn prompt_info_view(r: Option<PromptInfo>) -> Option<PromptCapV> {
    match r {
        Some(i) => Some(i.dv()),
        None => None,
    }
}

/// The behaviour of a workflow unit: a three-phase contract. `prep` reads the
/// parameters and the shared state and distils an input; `exec` computes from
/// that input alone, with no access to the shared state; `post` is the only
/// phase allowed to change the shared state, and picks the next action.
///
/// Each implementation describes its phases through relation spec functions;
/// the executable methods are bound to them, so whatever holds of the
/// relations holds of a run. The relations default to the inert unit:
/// `prep` and `exec` yield the null value, `post` leaves the state alone and
/// ends the traversal, and neither capability is declared.
pub trait NodeLogic: Sized {
    /// What `prep` may return, given the parameters and the shared state.
    open spec fn prep_rel(&self, params: StateV, shared: StateV, out: Val) -> bool {
        out == Val::Null
    }

    /// What `exec` may return, given the prepared input alone.
    open spec fn exec_rel(&self, input: Val, out: Val) -> bool {
        out == Val::Null
    }

    /// How `post` may change the shared state, and which action it may pick,
    /// given the prepared input and the execution result.
    open spec fn post_rel(
        &self,
        shared0: StateV,
        prep_res: Val,
        exec_res: Val,
        shared1: StateV,
        action: Option<Seq<char>>,
    ) -> bool {
        shared1 == shared0 && action is None
    }

    /// The sealing capability this behaviour declares, if any.
    open spec fn seal_cap(&self) -> Option<SealCapV> {
        None
    }

    /// The prompting capability this behaviour declares, if any.
    open spec fn prompt_cap(&self) -> Option<PromptCapV> {
        None
    }

    fn prep(&self, params: &State, shared: &State) -> (out: NodeValue)
        ensures
            self.prep_rel(params@, shared@, out.dv()),
    ;

    fn exec(&self, input: &NodeValue) -> (out: NodeValue)
        ensures
            self.exec_rel(input.dv(), out.dv()),
    ;

    fn post(&self, shared: &mut State, prep_res: NodeValue, exec_res: NodeValue) -> (action: Option<
        String,
    >)
        ensures
            self.post_rel(
                old(shared)@,
                prep_res.dv(),
                exec_res.dv(),
                final(shared)@,
                action.deep_view(),
            ),
    ;

    /// Capability probing: a behaviour that can be sealed reports its
    /// signature and task identifier here.
    fn seal_info(&self) -> (r: Option<SealInfo>)
        ensures
            seal_info_view(r) == self.seal_cap(),
    ;

    /// Capability probing: a behaviour driven by an instruction and a model
    /// reports them here.
    fn prompt_info(&self) -> (r: Option<PromptInfo>)
        ensures
            prompt_info_view(r) == self.prompt_cap(),
    ;
}

/// The successor edges of a unit: a map from action strings to units, with
/// pairwise distinct keys. Binding an action that already has an edge
/// replaces that edge.
pub struct Edges<L> {
    entries: Vec<(String, Executable<L>)>,
}

impl<L> Edges<L> {
    #[verifier::type_invariant]
    spec fn inv(self) -> bool {
        seq_keys_unique(self.entries@)
    }

    pub closed spec fn view(&self) -> Map<Seq<char>, Executable<L>> {
        Map::new(
            |k: Seq<char>| seq_has_key(self.entries@, k),
            |k: Seq<char>| self.entries@[seq_key_idx(self.entries@, k)].1,
        )
    }

    /// The actions in storage order; distinct, and together exactly the
    /// domain of the edge map.
    pub closed spec fn key_seq(&self) -> Seq<Seq<char>> {
        Seq::new(self.entries@.len(), |i: int| self.entries@[i].0@)
    }

    pub fn new() -> (r: Self)
        ensures
            r@ == Map::<Seq<char>, Executable<L>>::empty(),
    {
        let r = Edges { entries: Vec::new() };
        proof {
            assert(r@ =~= Map::<Seq<char>, Executable<L>>::empty());
        }
        r
    }

    pub fn len(&self) -> (r: usize)
        ensures
            r == self@.dom().len(),
            r == self.key_seq().len(),
    {
        proof {
            use_type_invariant(self);
            crate::strmap::lemma_keys_of(self.entries@);
            crate::strmap::lemma_keys_of_len(self.entries@);
            assert(self@.dom() =~= crate::strmap::keys_of(self.entries@));
        }
        self.entries.len()
    }

    pub fn is_empty(&self) -> (r: bool)
        ensures
            r == (self@ == Map::<Seq<char>, Executable<L>>::empty()),
    {
        let n = self.entries.len();
        proof {
            if n == 0 {
                assert(self@ =~= Map::<Seq<char>, Executable<L>>::empty());
            } else {
                assert(seq_has_key(self.entries@, self.entries@[0].0@));
                assert(self@.contains_key(self.entries@[0].0@));
                assert(!Map::<Seq<char>, Executable<L>>::empty().contains_key(
                    self.entries@[0].0@,
                ));
            }
        }
        n == 0
    }

    pub fn contains_key(&self, key: &str) -> (r: bool)
        ensures
            r == self@.contains_key(key@),
    {
        let mut i: usize = 0;
        while i < self.entries.len()
            invariant
                i <= self.entries@.len(),
                forall|j: int| 0 <= j < i as int ==> self.entries@[j].0@ != key@,
            decreases self.entries@.len() - i,
        {
            if str_eq(key, &self.entries[i].0) {
                proof {
                    assert(seq_has_key(self.entries@, key@));
                }
                return true;
            }
            i = i + 1;
        }
        false
    }

    pub fn get(&self, key: &str) -> (r: Option<&Executable<L>>)
        ensures
            match r {
                Some(v) => self@.contains_key(key@) && *v == self@[key@] && exe_size(*v)
                    <= edges_size(*self),
                None => !self@.contains_key(key@),
            },
    {
        proof {
            use_type_invariant(self);
        }
        let mut i: usize = 0;
        while i < self.entries.len()
            invariant
                i <= self.entries@.len(),
                seq_keys_unique(self.entries@),
                forall|j: int| 0 <= j < i as int ==> self.entries@[j].0@ != key@,
            decreases self.entries@.len() - i,
        {
            if str_eq(key, &self.entries[i].0) {
                proof {
                    assert(seq_has_key(self.entries@, key@));
                    let w = seq_key_idx(self.entries@, key@);
                    assert(w == i as int);
                    lemma_entries_size_at(self.entries@, i as int);
                }
                return Some(&self.entries[i].1);
            }
            i = i + 1;
        }
        None
    }

    /// Binds `key` to `value`; an existing edge under the same action is
    /// replaced, and nothing else changes.
    pub fn insert(&mut self, key: String, value: Executable<L>)
        ensures
            final(self)@ == old(self)@.insert(key@, value),
    {
        proof {
            use_type_invariant(&*self);
        }
        let mut es: Vec<(String, Executable<L>)> = Vec::new();
        core::mem::swap(&mut es, &mut self.entries);
        let ghost s0 = es@;
        let mut i: usize = 0;
        let mut found: bool = false;
        while i < es.len() && !found
            invariant
                i <= es@.len(),
                es@ == s0,
                !found ==> forall|j: int| 0 <= j < i as int ==> es@[j].0@ != key@,
                found ==> i < es@.len() && es@[i as int].0@ == key@,
            decreases es@.len() - i, (if found { 0int } else { 1int }),
        {
            if str_eq(key.as_str(), &es[i].0) {
                found = true;
            } else {
                i = i + 1;
            }
        }
        if found {
            es.remove(i);
        }
        let ghost s1 = es@;
        es.push((key, value));
        proof {
            let s2 = es@;
            assert(seq_keys_unique(s1) && !seq_has_key(s1, key@) && (forall|k: Seq<char>|
                k != key@ ==> (seq_has_key(s1, k) <==> seq_has_key(s0, k))) && (forall|
                k: Seq<char>,
            |
                k != key@ && seq_has_key(s1, k) ==> s1[seq_key_idx(s1, k)].1 == s0[seq_key_idx(
                    s0,
                    k,
                )].1)) by {
                if found {
                    let fi = i as int;
                    assert forall|k: Seq<char>| k != key@ && seq_has_key(s0, k)
                        implies seq_has_key(s1, k) by {
                        let w = seq_key_idx(s0, k);
                        if w < fi {
                            assert(s1[w].0@ == k);
                        } else {
                            assert(s1[w - 1].0@ == k);
                        }
                    }
                    assert forall|k: Seq<char>| seq_has_key(s1, k) && k != key@
                        implies seq_has_key(s0, k) by {
                        let w = seq_key_idx(s1, k);
                        if w < fi {
                            assert(s0[w].0@ == k);
                        } else {
                            assert(s0[w + 1].0@ == k);
                        }
                    }
                    if seq_has_key(s1, key@) {
                        let w = seq_key_idx(s1, key@);
                        if w < fi {
                            assert(s0[w].0@ == key@);
                            assert(false);
                        } else {
                            assert(s0[w + 1].0@ == key@);
                            assert(false);
                        }
                    }
                    assert forall|k: Seq<char>| k != key@ && seq_has_key(s1, k)
                        implies s1[seq_key_idx(s1, k)].1 == s0[seq_key_idx(s0, k)].1 by {
                        let w1 = seq_key_idx(s1, k);
                        let w0 = seq_key_idx(s0, k);
                        if w1 < fi {
                            assert(s0[w1].0@ == k);
                            assert(w0 == w1);
                        } else {
                            assert(s0[w1 + 1].0@ == k);
                            assert(w0 == w1 + 1);
                        }
                    }
                }
            }
            assert forall|k: Seq<char>| k != key@ implies (seq_has_key(s2, k) <==> seq_has_key(
                s1,
                k,
            )) by {
                if seq_has_key(s2, k) {
                    let w = seq_key_idx(s2, k);
                    assert(w < s1.len());
                    assert(s1[w].0@ == k);
                }
                if seq_has_key(s1, k) {
                    let w = seq_key_idx(s1, k);
                    assert(s2[w].0@ == k);
                }
            }
            assert(s2[s1.len() as int].0@ == key@);
            assert(seq_has_key(s2, key@));
            assert(seq_keys_unique(s2));
            assert forall|k: Seq<char>| seq_has_key(s2, k) implies s2[seq_key_idx(s2, k)].1
                == old(self)@.insert(key@, value)[k] by {
                let w = seq_key_idx(s2, k);
                if k == key@ {
                    assert(w == s1.len());
                } else {
                    assert(w < s1.len());
                    assert(s1[w].0@ == k);
                    let w1 = seq_key_idx(s1, k);
                    assert(w1 == w);
                    assert(seq_has_key(s0, k));
                }
            }
        }
        core::mem::swap(&mut es, &mut self.entries);
        proof {
            assert(self@ =~= old(self)@.insert(key@, value));
        }
    }

    /// Number of stored edges, indexable by `key_at` / `value_at`. Its
    /// contract also publishes that the key sequence lists each action once
    /// and covers exactly the domain of the edge map.
    pub fn num_entries(&self) -> (r: usize)
        ensures
            r == self.key_seq().len(),
            forall|i: int, j: int| 0 <= i < j < self.key_seq().len()
                ==> self.key_seq()[i] != self.key_seq()[j],
            forall|i: int| 0 <= i < self.key_seq().len()
                ==> self@.contains_key(#[trigger] self.key_seq()[i]),
            forall|k: Seq<char>| self@.contains_key(k) ==> self.key_seq().contains(k),
    {
        proof {
            use_type_invariant(self);
            assert forall|k: Seq<char>| self@.contains_key(k)
                implies self.key_seq().contains(k) by {
                let i = seq_key_idx(self.entries@, k);
                assert(self.key_seq()[i] == k);
            }
        }
        self.entries.len()
    }

    pub fn key_at(&self, i: usize) -> (r: &String)
        requires
            i < self.key_seq().len(),
        ensures
            r@ == self.key_seq()[i as int],
    {
        &self.entries[i].0
    }

    pub fn value_at(&self, i: usize) -> (r: &Executable<L>)
        requires
            i < self.key_seq().len(),
        ensures
            self@.contains_key(self.key_seq()[i as int]),
            *r == self@[self.key_seq()[i as int]],
            exe_size(*r) <= edges_size(*self),
    {
        proof {
            use_type_invariant(self);
            assert(seq_has_key(self.entries@, self.entries@[i as int].0@));
            let w = seq_key_idx(self.entries@, self.entries@[i as int].0@);
            assert(w == i as int);
            lemma_entries_size_at(self.entries@, i as int);
        }
        &self.entries[i].1
    }
}

/// The data every unit carries: its parameters and its successor edges,
/// keyed by action string.
pub struct NodeCore<L> {
    pub params: State,
    pub successors: Edges<L>,
}

impl<L> NodeCore<L> {
    pub fn new() -> (r: Self)
        ensures
            r.params@ == Map::<Seq<char>, Val>::empty(),
            r.successors@ == Map::<Seq<char>, Executable<L>>::empty(),
    {
        NodeCore { params: State::new(), successors: Edges::new() }
    }
}

/// A synchronous unit: data plus behaviour.
pub struct Node<L> {
    pub data: NodeCore<L>,
    pub behaviour: L,
}

/// An asynchronous unit: structurally a unit like any other, but its phases
/// may suspend, so only a scheduler-driven caller may run it; the synchronous
/// flow refuses it.
pub struct AsyncNode<L> {
    pub data: NodeCore<L>,
    pub behaviour: L,
}

/// Any unit that can stand in a graph: a synchronous node, an asynchronous
/// node, or a sealed, identity-bearing unit.
pub enum Executable<L> {
    Sync(Node<L>),
    Async(AsyncNode<L>),
    Sealed(Box<SealedNode<L>>),
}

/// One full synchronous run of a behaviour: the three phases in order, the
/// intermediate and result values threaded between them. The shared state is
/// read by `prep`, untouched by `exec`, and changed only by `post`.
pub open spec fn node_run_rel<L: NodeLogic>(
    logic: L,
    params: StateV,
    shared0: StateV,
    shared1: StateV,
    action: Option<Seq<char>>,
) -> bool {
    exists|p: Val, e: Val|
        #![trigger logic.exec_rel(p, e)]
        logic.prep_rel(params, shared0, p) && logic.exec_rel(p, e) && logic.post_rel(
            shared0,
            p,
            e,
            shared1,
            action,
        )
}

/// The structural size of an entry sequence: the sizes of the units it
/// holds.
pub(crate) open spec fn entries_size<L>(s: Seq<(String, Executable<L>)>) -> nat
    decreases s,
{
    if s.len() == 0 {
        0
    } else {
        entries_size(s.drop_last()) + exe_size(s[s.len() - 1].1)
    }
}

/// The structural size of an edge map: the sizes of the units it holds.
pub closed spec fn edges_size<L>(ed: Edges<L>) -> nat
    decreases ed,
{
    entries_size(ed.entries@)
}

/// The structural size of a unit: every unit reachable along successor
/// edges is strictly smaller, which bounds a traversal of an owned graph.
pub open spec fn exe_size<L>(e: Executable<L>) -> nat
    decreases e,
{
    match e {
        Executable::Sync(n) => 1 + edges_size(n.data.successors),
        Executable::Async(n) => 1 + edges_size(n.data.successors),
        Executable::Sealed(s) => 1 + exe_size(s.inner),
    }
}

pub(crate) proof fn lemma_entries_size_at<L>(s: Seq<(String, Executable<L>)>, i: int)
    requires
        0 <= i < s.len(),
    ensures
        exe_size(s[i].1) <= entries_size(s),
    decreases s.len(),
{
    if i < s.len() - 1 {
        lemma_entries_size_at(s.drop_last(), i);
    }
}

/// The edge map of a unit; for a sealed unit, the one of the unit inside.
pub open spec fn exe_edges<L>(e: Executable<L>) -> Edges<L>
    decreases e,
{
    match e {
        Executable::Sync(n) => n.data.successors,
        Executable::Async(n) => n.data.successors,
        Executable::Sealed(s) => exe_edges(s.inner),
    }
}

/// A unit's edge map is strictly smaller than the unit, and carries the
/// unit's successor map.
pub proof fn lemma_exe_edges<L>(e: Executable<L>)
    ensures
        edges_size(exe_edges(e)) < exe_size(e),
        exe_edges(e)@ == exe_successors(e),
    decreases e,
{
    match e {
        Executable::Sync(_) => {},
        Executable::Async(_) => {},
        Executable::Sealed(s) => {
            lemma_exe_edges(s.inner);
        },
    }
}

/// Each position of the key sequence is a key of the edge map.
pub proof fn lemma_edges_key_contains<L>(ed: Edges<L>, i: int)
    requires
        0 <= i < ed.key_seq().len(),
    ensures
        ed@.contains_key(ed.key_seq()[i]),
{
    assert(ed.entries@[i].0@ == ed.key_seq()[i]);
    assert(seq_has_key(ed.entries@, ed.key_seq()[i]));
}

/// Every unit an edge map holds is no larger than the map.
pub proof fn lemma_edges_value_size<L>(ed: Edges<L>, k: Seq<char>)
    requires
        ed@.contains_key(k),
    ensures
        exe_size(ed@[k]) <= edges_size(ed),
{
    assert(seq_has_key(ed.entries@, k));
    let w = seq_key_idx(ed.entries@, k);
    lemma_entries_size_at(ed.entries@, w);
}

/// The parameters a unit itself carries.
pub open spec fn exe_params<L>(e: Executable<L>) -> StateV
    decreases e,
{
    match e {
        Executable::Sync(n) => n.data.params@,
        Executable::Async(n) => n.data.params@,
        Executable::Sealed(s) => exe_params(s.inner),
    }
}

/// The successor edges of a unit; for a sealed unit, those of the unit
/// inside it.
pub open spec fn exe_successors<L>(e: Executable<L>) -> Map<Seq<char>, Executable<L>>
    decreases e,
{
    match e {
        Executable::Sync(n) => n.data.successors@,
        Executable::Async(n) => n.data.successors@,
        Executable::Sealed(s) => exe_successors(s.inner),
    }
}

/// Whether a purely synchronous context must refuse to run this unit: it is
/// an asynchronous unit, or seals one.
pub open spec fn sync_refuses<L>(e: Executable<L>) -> bool
    decreases e,
{
    match e {
        Executable::Sync(_) => false,
        Executable::Async(_) => true,
        Executable::Sealed(s) => sync_refuses(s.inner),
    }
}

/// What one unit may do in a synchronous traversal: a synchronous node runs
/// its three phases under the given parameters; an asynchronous unit never
/// runs here; a sealed unit runs the unit inside it under that unit's own
/// stored parameters.
pub open spec fn unit_run_rel<L: NodeLogic>(
    e: Executable<L>,
    params: StateV,
    shared0: StateV,
    shared1: StateV,
    action: Option<Seq<char>>,
) -> bool
    decreases e,
{
    match e {
        Executable::Sync(n) => node_run_rel(n.behaviour, params, shared0, shared1, action),
        Executable::Async(_) => false,
        Executable::Sealed(s) => unit_run_rel(
            s.inner,
            exe_params(s.inner),
            shared0,
            shared1,
            action,
        ),
    }
}

impl<L> Executable<L> {
    /// The successor map of this unit; for a sealed unit, the one of the
    /// unit inside it.
    pub fn successors(&self) -> (r: &Edges<L>)
        ensures
            r@ == exe_successors(*self),
            *r == exe_edges(*self),
            edges_size(*r) < exe_size(*self),
        decreases *self,
    {
        match self {
            Executable::Sync(n) => &n.data.successors,
            Executable::Async(n) => &n.data.successors,
            Executable::Sealed(s) => s.inner.successors(),
        }
    }
}

impl<L: NodeLogic> Node<L> {
    /// Creates a unit with the given behaviour, no parameters and no
    /// successors.
    pub fn new(behaviour: L) -> (r: Node<L>)
        ensures
            r.behaviour == behaviour,
            r.data.params@ == Map::<Seq<char>, Val>::empty(),
            r.data.successors@ == Map::<Seq<char>, Executable<L>>::empty(),
    {
        Node { data: NodeCore::new(), behaviour }
    }

    /// Replaces the unit's stored parameters.
    pub fn set_params(&mut self, params: State)
        ensures
            final(self).data.params == params,
            final(self).data.successors == old(self).data.successors,
            final(self).behaviour == old(self).behaviour,
    {
        self.data.params = params;
    }

    /// Chains `node` after this unit under the conventional action
    /// `"default"`.
    pub fn next(self, node: Executable<L>) -> (r: Node<L>)
        ensures
            r.data.successors@ == self.data.successors@.insert("default"@, node),
            r.data.params == self.data.params,
            r.behaviour == self.behaviour,
    {
        self.next_on("default", node)
    }

    /// Chains `node` after this unit under the given action. An existing
    /// edge under the same action is replaced; the rest of the map is kept.
    pub fn next_on(self, action: &str, node: Executable<L>) -> (r: Node<L>)
        ensures
            r.data.successors@ == self.data.successors@.insert(action@, node),
            r.data.params == self.data.params,
            r.behaviour == self.behaviour,
    {
        let mut s = self;
        s.data.successors.insert(action.to_owned(), node);
        s
    }

    /// Runs the unit's three phases in order with its stored parameters,
    /// threading the prepared input and the result, and returns the action
    /// picked by post-processing.
    pub fn run(&self, shared: &mut State) -> (action: Option<String>)
        ensures
            node_run_rel(
                self.behaviour,
                self.data.params@,
                old(shared)@,
                final(shared)@,
                action.deep_view(),
            ),
    {
        self.run_with_params(shared, &self.data.params)
    }

    /// Runs the unit's three phases with the given parameters instead of the
    /// stored ones, leaving the unit untouched.
    pub fn run_with_params(&self, shared: &mut State, params: &State) -> (action: Option<String>)
        ensures
            node_run_rel(
                self.behaviour,
                params@,
                old(shared)@,
                final(shared)@,
                action.deep_view(),
            ),
    {
        let p = self.behaviour.prep(params, shared);
        let e = self.behaviour.exec(&p);
        let ghost pv = p.dv();
        let ghost ev = e.dv();
        let action = self.behaviour.post(shared, p, e);
        proof {
            assert(self.behaviour.exec_rel(pv, ev));
        }
        action
    }
}

impl<L: NodeLogic> AsyncNode<L> {
    /// Creates an asynchronous unit with the given behaviour, no parameters
    /// and no successors.
    pub fn new(behaviour: L) -> (r: AsyncNode<L>)
        ensures
            r.behaviour == behaviour,
            r.data.params@ == Map::<Seq<char>, Val>::empty(),
            r.data.successors@ == Map::<Seq<char>, Executable<L>>::empty(),
    {
        AsyncNode { data: NodeCore::new(), behaviour }
    }

    /// Replaces the unit's stored parameters.
    pub fn set_params(&mut self, params: State)
        ensures
            final(self).data.params == params,
            final(self).data.successors == old(self).data.successors,
            final(self).behaviour == old(self).behaviour,
    {
        self.data.params = params;
    }

    /// Chains `node` after this unit under the conventional action
    /// `"default"`.
    pub fn next(self, node: Executable<L>) -> (r: AsyncNode<L>)
        ensures
            r.data.successors@ == self.data.successors@.insert("default"@, node),
            r.data.params == self.data.params,
            r.behaviour == self.behaviour,
    {
        self.next_on("default", node)
    }

    /// Chains `node` after this unit under the given action. An existing
    /// edge under the same action is replaced; the rest of the map is kept.
    pub fn next_on(self, action: &str, node: Executable<L>) -> (r: AsyncNode<L>)
        ensures
            r.data.successors@ == self.data.successors@.insert(action@, node),
            r.data.params == self.data.params,
            r.behaviour == self.behaviour,
    {
        let mut s = self;
        s.data.successors.insert(action.to_owned(), node);
        s
    }
}

} // verus!
