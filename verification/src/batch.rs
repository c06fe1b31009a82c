use vstd::prelude::*;
use crate::flow::{Flow, FlowError, run_completes, run_refused};
use crate::node::{
    AsyncNode, Executable, Node, NodeCore, NodeLogic, PromptCapV, PromptInfo, SealCapV, SealInfo,
    StateV,
};
use crate::state::State;
use crate::value::{Val, NodeValue, dv_seq, lemma_dv_seq};

verus! {

/// What applying a behaviour's computation over every element of an array
/// yields: for an array input, an array of results in the same order, each
/// related to its element; for anything else, the null value.
pub open spec fn batch_exec_rel<L: NodeLogic>(logic: L, input: Val, out: Val) -> bool {
    match input {
        Val::List(items) => match out {
            Val::List(outs) => outs.len() == items.len() && (forall|i: int|
                0 <= i < items.len() ==> logic.exec_rel(items[i], #[trigger] outs[i])),
            _ => false,
        },
        _ => out == Val::Null,
    }
}

/// Wraps a behaviour so that its computation is applied over every element
/// of an array-shaped input, sequentially and in declaration order; the
/// prepare and post-process phases delegate unchanged.
pub struct BatchLogic<L> {
    pub logic: L,
}

impl<L: NodeLogic> BatchLogic<L> {
    pub fn new(logic: L) -> (r: Self)
        ensures
            r.logic == logic,
    {
        BatchLogic { logic }
    }
}

impl<L: NodeLogic> NodeLogic for BatchLogic<L> {
    open spec fn prep_rel(&self, params: StateV, shared: StateV, out: Val) -> bool {
        self.logic.prep_rel(params, shared, out)
    }

    open spec fn exec_rel(&self, input: Val, out: Val) -> bool {
        batch_exec_rel(self.logic, input, out)
    }

    open spec fn post_rel(
        &self,
        shared0: StateV,
        prep_res: Val,
        exec_res: Val,
        shared1: StateV,
        action: Option<Seq<char>>,
    ) -> bool {
        self.logic.post_rel(shared0, prep_res, exec_res, shared1, action)
    }

    open spec fn seal_cap(&self) -> Option<SealCapV> {
        self.logic.seal_cap()
    }

    open spec fn prompt_cap(&self) -> Option<PromptCapV> {
        self.logic.prompt_cap()
    }

    fn prep(&self, params: &State, shared: &State) -> NodeValue {
        self.logic.prep(params, shared)
    }

    fn exec(&self, input: &NodeValue) -> (out: NodeValue) {
        match input {
            NodeValue::List(items) => {
                let mut outs: Vec<NodeValue> = Vec::new();
                let mut i: usize = 0;
                while i < items.len()
                    invariant
                        i <= items@.len(),
                        outs@.len() == i as nat,
                        forall|j: int| 0 <= j < i as int ==> self.logic.exec_rel(
                            items@[j].dv(),
                            #[trigger] outs@[j].dv(),
                        ),
                    decreases items@.len() - i,
                {
                    let o = self.logic.exec(&items[i]);
                    outs.push(o);
                    i = i + 1;
                }
                proof {
                    lemma_dv_seq(items@);
                    lemma_dv_seq(outs@);
                }
                NodeValue::List(outs)
            },
            _ => NodeValue::Null,
        }
    }

    fn post(&self, shared: &mut State, prep_res: NodeValue, exec_res: NodeValue) -> (action: Option<
        String,
    >) {
        self.logic.post(shared, prep_res, exec_res)
    }

    fn seal_info(&self) -> (r: Option<SealInfo>) {
        self.logic.seal_info()
    }

    fn prompt_info(&self) -> (r: Option<PromptInfo>) {
        self.logic.prompt_info()
    }
}

/// Creates a unit whose computation maps the given behaviour over an array.
pub fn new_batch_node<L: NodeLogic>(logic: L) -> (r: Node<BatchLogic<L>>)
    ensures
        r.behaviour.logic == logic,
        r.data.params@ == Map::<Seq<char>, Val>::empty(),
        r.data.successors@ == Map::<Seq<char>, Executable<BatchLogic<L>>>::empty(),
{
    Node::new(BatchLogic::new(logic))
}

/// A batch behaviour for scheduler-driven units: the same element-wise
/// contract as `BatchLogic`; a cooperative driver may suspend between
/// elements, but the results stand in declaration order.
pub type AsyncBatchLogic<L> = BatchLogic<L>;

/// Creates a scheduler-driven unit whose computation maps the given
/// behaviour over an array.
pub fn new_async_batch_node<L: NodeLogic>(logic: L) -> (r: AsyncNode<AsyncBatchLogic<L>>)
    ensures
        r.behaviour.logic == logic,
        r.data.params@ == Map::<Seq<char>, Val>::empty(),
        r.data.successors@ == Map::<Seq<char>, Executable<AsyncBatchLogic<L>>>::empty(),
{
    AsyncNode::new(BatchLogic::new(logic))
}

/// The default bound on concurrent elements of a parallel batch.
pub const DEFAULT_MAX_CONCURRENCY: usize = 50;

/// A batch behaviour whose elements a driver may fan out concurrently, up to
/// a bound; the result array stands in input order regardless of completion
/// order, which is exactly what its element-wise relation promises.
pub struct AsyncParallelBatchLogic<L> {
    pub logic: L,
    pub max_concurrency: usize,
}

impl<L: NodeLogic> AsyncParallelBatchLogic<L> {
    pub fn new(logic: L) -> (r: Self)
        ensures
            r.logic == logic,
            r.max_concurrency == DEFAULT_MAX_CONCURRENCY,
    {
        AsyncParallelBatchLogic { logic, max_concurrency: DEFAULT_MAX_CONCURRENCY }
    }

    /// Replaces the concurrency bound; a bound of zero could never make
    /// progress, so it is excluded outright.
    pub fn with_concurrency(self, max_concurrency: usize) -> (r: Self)
        requires
            max_concurrency >= 1,
        ensures
            r.logic == self.logic,
            r.max_concurrency == max_concurrency,
    {
        AsyncParallelBatchLogic { logic: self.logic, max_concurrency }
    }
}

impl<L: NodeLogic> NodeLogic for AsyncParallelBatchLogic<L> {
    open spec fn prep_rel(&self, params: StateV, shared: StateV, out: Val) -> bool {
        self.logic.prep_rel(params, shared, out)
    }

    open spec fn exec_rel(&self, input: Val, out: Val) -> bool {
        batch_exec_rel(self.logic, input, out)
    }

    open spec fn post_rel(
        &self,
        shared0: StateV,
        prep_res: Val,
        exec_res: Val,
        shared1: StateV,
        action: Option<Seq<char>>,
    ) -> bool {
        self.logic.post_rel(shared0, prep_res, exec_res, shared1, action)
    }

    open spec fn seal_cap(&self) -> Option<SealCapV> {
        self.logic.seal_cap()
    }

    open spec fn prompt_cap(&self) -> Option<PromptCapV> {
        self.logic.prompt_cap()
    }

    fn prep(&self, params: &State, shared: &State) -> NodeValue {
        self.logic.prep(params, shared)
    }

    fn exec(&self, input: &NodeValue) -> (out: NodeValue) {
        match input {
            NodeValue::List(items) => {
                let mut outs: Vec<NodeValue> = Vec::new();
                let mut i: usize = 0;
                while i < items.len()
                    invariant
                        i <= items@.len(),
                        outs@.len() == i as nat,
                        forall|j: int| 0 <= j < i as int ==> self.logic.exec_rel(
                            items@[j].dv(),
                            #[trigger] outs@[j].dv(),
                        ),
                    decreases items@.len() - i,
                {
                    let o = self.logic.exec(&items[i]);
                    outs.push(o);
                    i = i + 1;
                }
                proof {
                    lemma_dv_seq(items@);
                    lemma_dv_seq(outs@);
                }
                NodeValue::List(outs)
            },
            _ => NodeValue::Null,
        }
    }

    fn post(&self, shared: &mut State, prep_res: NodeValue, exec_res: NodeValue) -> (action: Option<
        String,
    >) {
        self.logic.post(shared, prep_res, exec_res)
    }

    fn seal_info(&self) -> (r: Option<SealInfo>) {
        self.logic.seal_info()
    }

    fn prompt_info(&self) -> (r: Option<PromptInfo>) {
        self.logic.prompt_info()
    }
}

/// Creates a scheduler-driven unit whose computation fans the given batch
/// behaviour out over an array under its concurrency bound.
pub fn new_async_parallel_batch_node<L: NodeLogic>(logic: AsyncParallelBatchLogic<L>) -> (r:
    AsyncNode<AsyncParallelBatchLogic<L>>)
    ensures
        r.behaviour == logic,
        r.data.params@ == Map::<Seq<char>, Val>::empty(),
        r.data.successors@ == Map::<Seq<char>, Executable<AsyncParallelBatchLogic<L>>>::empty(),
{
    AsyncNode::new(logic)
}

/// The mathematical state an object-shaped value stands for, binding by
/// binding; a later binding under the same key wins.
pub open spec fn state_of_object(entries: Seq<(Seq<char>, Val)>) -> StateV
    decreases entries.len(),
{
    if entries.len() == 0 {
        Map::empty()
    } else {
        state_of_object(entries.drop_last()).insert(
            entries[entries.len() - 1].0,
            entries[entries.len() - 1].1,
        )
    }
}

/// The per-iteration parameter maps a batch value yields: one per
/// object-shaped element of an array; any other shape yields no iterations.
pub open spec fn iter_params_of(bv: Val) -> Seq<StateV> {
    match bv {
        Val::List(items) => if forall|i: int| 0 <= i < items.len() ==> (#[trigger] items[i])
            is Object {
            Seq::new(items.len(), |i: int| state_of_object(items[i]->Object_0))
        } else {
            Seq::empty()
        },
        _ => Seq::empty(),
    }
}

/// Running an inner flow once per parameter map, in order, threading one
/// shared state through all iterations: each iteration's parameters are its
/// own map with the base parameters laid over it, so on a conflicting key
/// the stored base binding wins.
pub open spec fn batch_runs_rel<L: NodeLogic>(
    start: Executable<L>,
    base: StateV,
    ps: Seq<StateV>,
    s0: StateV,
    s1: StateV,
) -> bool
    decreases ps.len(),
{
    if ps.len() == 0 {
        s1 == s0
    } else {
        exists|mid: StateV, a: Option<Seq<char>>|
            #![trigger run_completes(start, ps[ps.len() - 1].union_prefer_right(base), mid, s1, a)]
            batch_runs_rel(start, base, ps.drop_last(), s0, mid) && run_completes(
                start,
                ps[ps.len() - 1].union_prefer_right(base),
                mid,
                s1,
                a,
            )
    }
}

/// A unit whose computation runs an entire inner flow once per element of a
/// caller-supplied parameter array, mutating one shared state in place
/// across iterations, so later iterations observe earlier writes.
pub struct BatchFlow<L, F> {
    pub data: NodeCore<L>,
    pub flow: Flow<L>,
    pub prep_fn: F,
}

impl<L: NodeLogic, F: Fn(&State, &State) -> NodeValue> BatchFlow<L, F> {
    /// Wraps an inner flow and the function that derives the iteration
    /// parameter array from this unit's parameters and the shared state.
    pub fn new(flow: Flow<L>, prep_fn: F) -> (r: Self)
        ensures
            r.flow == flow,
            r.data.params@ == Map::<Seq<char>, Val>::empty(),
            r.data.successors@ == Map::<Seq<char>, Executable<L>>::empty(),
    {
        BatchFlow { data: NodeCore::new(), flow, prep_fn }
    }

    /// Runs the inner flow once per object in the given array, in order,
    /// each time under that object's bindings with the inner flow's stored
    /// parameters laid over them, threading the shared state through; ends
    /// with the conventional action.
    pub fn run_with_items(&self, shared: &mut State, items: &NodeValue) -> (r: Result<
        Option<String>,
        FlowError,
    >)
        ensures
            r matches Ok(a) ==> a.deep_view() == Some("default"@) && batch_runs_rel(
                self.flow.start,
                self.flow.data.params@,
                iter_params_of(items.dv()),
                old(shared)@,
                final(shared)@,
            ),
            r is Err ==> exists|p: StateV, sa: StateV|
                #![trigger run_refused(self.flow.start, p, sa, final(shared)@)]
                run_refused(self.flow.start, p, sa, final(shared)@),
    {
        let ghost ps = iter_params_of(items.dv());
        match items {
            NodeValue::List(arr) => {
                // every element must be an object for any iteration to run
                let mut all_objects = true;
                let mut i: usize = 0;
                while i < arr.len()
                    invariant
                        i <= arr@.len(),
                        all_objects ==> forall|j: int| 0 <= j < i as int ==> (#[trigger] arr@[
                            j
                        ].dv()) is Object,
                        !all_objects ==> exists|j: int| 0 <= j < i as int && !((#[trigger] arr@[
                            j
                        ].dv()) is Object),
                    decreases arr@.len() - i,
                {
                    let is_obj = match &arr[i] {
                        NodeValue::Object(_) => true,
                        _ => false,
                    };
                    proof {
                        assert(is_obj == (arr@[i as int].dv() is Object));
                    }
                    all_objects = all_objects && is_obj;
                    i = i + 1;
                }
                proof {
                    lemma_dv_seq(arr@);
                }
                if !all_objects {
                    proof {
                        let j = choose|j: int| 0 <= j < arr@.len() && !((#[trigger] arr@[
                            j
                        ].dv()) is Object);
                        assert(dv_seq(arr@)[j] == arr@[j].dv());
                        assert(ps =~= Seq::<StateV>::empty());
                    }
                    return Ok(Some("default".to_owned()));
                }
                let mut k: usize = 0;
                proof {
                    assert(dv_seq(arr@).len() == arr@.len());
                    assert(ps.len() == arr@.len());
                }
                while k < arr.len()
                    invariant
                        k <= arr@.len(),
                        ps == iter_params_of(items.dv()),
                        ps.len() == arr@.len(),
                        items.dv() == Val::List(dv_seq(arr@)),
                        forall|j: int| 0 <= j < arr@.len() ==> (#[trigger] arr@[j].dv())
                            is Object,
                        forall|j: int| 0 <= j < arr@.len() ==> ps[j] == state_of_object(
                            (#[trigger] arr@[j].dv())->Object_0,
                        ),
                        batch_runs_rel(
                            self.flow.start,
                            self.flow.data.params@,
                            ps.subrange(0, k as int),
                            old(shared)@,
                            shared@,
                        ),
                    decreases arr@.len() - k,
                {
                    let iter_params = state_from_object(&arr[k]);
                    let combined = State::overlay(&iter_params, &self.flow.data.params);
                    let ghost mid = shared@;
                    let res = self.flow.run_with_params(shared, &combined);
                    match res {
                        Ok(_) => {
                            proof {
                                let sub1 = ps.subrange(0, k as int + 1);
                                assert(sub1.drop_last() =~= ps.subrange(0, k as int));
                                assert(sub1[sub1.len() - 1] == ps[k as int]);
                                lemma_dv_seq(arr@);
                                assert(combined@ == ps[k as int].union_prefer_right(
                                    self.flow.data.params@,
                                ));
                            }
                        },
                        Err(e) => {
                            return Err(e);
                        },
                    }
                    k = k + 1;
                }
                proof {
                    assert(ps.subrange(0, arr@.len() as int) =~= ps);
                }
                Ok(Some("default".to_owned()))
            },
            _ => {
                proof {
                    assert(ps =~= Seq::<StateV>::empty());
                }
                Ok(Some("default".to_owned()))
            },
        }
    }

    /// Derives the iteration array from this unit's parameters and the
    /// shared state, then runs the inner flow once per object in it.
    pub fn run(&self, shared: &mut State) -> (r: Result<Option<String>, FlowError>)
        requires
            forall|a: &State, b: &State| #[trigger] self.prep_fn.requires((a, b)),
        ensures
            r matches Ok(a) ==> a.deep_view() == Some("default"@) && exists|
                pa: &State,
                sa: &State,
                bv: NodeValue,
            |
                #![trigger self.prep_fn.ensures((pa, sa), bv)]
                *pa == self.data.params && *sa == *old(shared) && self.prep_fn.ensures(
                    (pa, sa),
                    bv,
                ) && batch_runs_rel(
                    self.flow.start,
                    self.flow.data.params@,
                    iter_params_of(bv.dv()),
                    old(shared)@,
                    final(shared)@,
                ),
            r is Err ==> exists|p: StateV, sa: StateV|
                #![trigger run_refused(self.flow.start, p, sa, final(shared)@)]
                run_refused(self.flow.start, p, sa, final(shared)@),
    {
        let bv = (self.prep_fn)(&self.data.params, shared);
        self.run_with_items(shared, &bv)
    }
}

/// Reads an object-shaped value as a parameter state, binding by binding.
fn state_from_object(v: &NodeValue) -> (r: State)
    requires
        v.dv() is Object,
    ensures
        r@ == state_of_object(v.dv()->Object_0),
{
    match v {
        NodeValue::Object(entries) => {
            let mut st = State::new();
            let mut i: usize = 0;
            proof {
                crate::value::lemma_dv_entries(entries@);
            }
            while i < entries.len()
                invariant
                    i <= entries@.len(),
                    v.dv() == Val::Object(crate::value::dv_entries(entries@)),
                    crate::value::dv_entries(entries@).len() == entries@.len(),
                    forall|j: int| 0 <= j < entries@.len()
                        ==> #[trigger] crate::value::dv_entries(entries@)[j] == (
                        entries@[j].0@,
                        entries@[j].1.dv(),
                    ),
                    st@ == state_of_object(
                        crate::value::dv_entries(entries@).subrange(0, i as int),
                    ),
                decreases entries@.len() - i,
            {
                let key = entries[i].0.clone();
                let val = crate::value::clone_value(&entries[i].1);
                st.insert(key, val);
                proof {
                    let full = crate::value::dv_entries(entries@);
                    let sub1 = full.subrange(0, i as int + 1);
                    assert(sub1.drop_last() =~= full.subrange(0, i as int));
                    assert(sub1[sub1.len() - 1] == full[i as int]);
                }
                i = i + 1;
            }
            proof {
                let full = crate::value::dv_entries(entries@);
                assert(full.subrange(0, entries@.len() as int) =~= full);
            }
            st
        },
        _ => {
            proof {
                assert(false);
            }
            State::new()
        },
    }
}

} // verus!
