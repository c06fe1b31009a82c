use vstd::prelude::*;
use crate::node::{
    Executable, Node, NodeCore, NodeLogic, StateV, exe_size, exe_successors, sync_refuses,
    unit_run_rel,
};
use crate::state::State;
use crate::telemetry::{NoTelemetry, Telemetry};

verus! {

/// Why a synchronous run refused to go on.
#[derive(Debug, Clone, Copy, PartialEq, Eq)]
pub enum FlowError {
    /// The traversal reached an asynchronous unit, which a purely
    /// synchronous context has no scheduler to drive.
    AsyncUnitInSyncFlow,
}

impl FlowError {
    /// A readable rendering of the refusal.
    pub fn message(&self) -> (r: String)
        ensures
            r@ == "a synchronous flow cannot drive an asynchronous unit"@,
    {
        "a synchronous flow cannot drive an asynchronous unit".to_owned()
    }
}

/// The action string a traversal follows: what post-processing picked, or
/// the conventional `"default"` where it picked nothing.
pub open spec fn default_action(a: Option<Seq<char>>) -> Seq<char> {
    match a {
        Some(s) => s,
        None => "default"@,
    }
}

/// Where a traversal goes from `cur` under the action `la`: the successor
/// registered under `la`, or nowhere.
pub open spec fn route<L>(cur: Executable<L>, la: Seq<char>) -> Option<Executable<L>> {
    if exe_successors(cur).contains_key(la) {
        Some(exe_successors(cur)[la])
    } else {
        None
    }
}

/// One traversal step from `cur`: the unit runs, the action it returned is
/// defaulted, and the defaulted action picks the next unit, if any.
pub open spec fn step_rel<L: NodeLogic>(
    cur: Executable<L>,
    params: StateV,
    s0: StateV,
    s1: StateV,
    la: Seq<char>,
    next: Option<Executable<L>>,
) -> bool {
    exists|a: Option<Seq<char>>|
        #![trigger unit_run_rel(cur, params, s0, s1, a)]
        unit_run_rel(cur, params, s0, s1, a) && la == default_action(a) && next == route(cur, la)
}

/// A traversal configuration reachable in `n` steps from the start unit:
/// the unit now due to run (or none, if the traversal ended) and the shared
/// state so far.
pub open spec fn reach_rel<L: NodeLogic>(
    start: Executable<L>,
    params: StateV,
    s0: StateV,
    cur: Option<Executable<L>>,
    s: StateV,
    n: nat,
) -> bool
    decreases n,
{
    if n == 0 {
        cur == Some(start) && s == s0
    } else {
        exists|prev: Executable<L>, sp: StateV, la: Seq<char>|
            #![trigger step_rel(prev, params, sp, s, la, cur)]
            reach_rel(start, params, s0, Some(prev), sp, (n - 1) as nat) && step_rel(
                prev,
                params,
                sp,
                s,
                la,
                cur,
            )
    }
}

/// Extending a reachable configuration by one step reaches the stepped-to
/// configuration.
pub proof fn lemma_reach_step<L: NodeLogic>(
    start: Executable<L>,
    params: StateV,
    s0: StateV,
    prev: Executable<L>,
    sp: StateV,
    n: nat,
    s1: StateV,
    la: Seq<char>,
    next: Option<Executable<L>>,
)
    requires
        reach_rel(start, params, s0, Some(prev), sp, n),
        step_rel(prev, params, sp, s1, la, next),
    ensures
        reach_rel(start, params, s0, next, s1, n + 1),
{
    let n1: nat = (n + 1) as nat;
    assert((n1 - 1) as nat == n);
    assert(reach_rel(start, params, s0, Some(prev), sp, (n1 - 1) as nat));
    assert(reach_rel(start, params, s0, next, s1, n1));
}

/// What a completed synchronous traversal guarantees: some reachable
/// configuration took a final step to nowhere, under the action the run
/// returned.
pub open spec fn run_completes<L: NodeLogic>(
    start: Executable<L>,
    params: StateV,
    s0: StateV,
    s1: StateV,
    a: Option<Seq<char>>,
) -> bool {
    exists|n: nat, prev: Executable<L>, sp: StateV, la: Seq<char>|
        #![trigger reach_rel(start, params, s0, Some(prev), sp, n), step_rel(prev, params, sp, s1, la, None::<Executable<L>>)]
        reach_rel(start, params, s0, Some(prev), sp, n) && step_rel(
            prev,
            params,
            sp,
            s1,
            la,
            None::<Executable<L>>,
        ) && a == Some(la)
}

/// What a refused synchronous traversal guarantees: it reached an
/// asynchronous unit and stopped with the shared state as that configuration
/// left it, before the refused unit ran.
pub open spec fn run_refused<L: NodeLogic>(
    start: Executable<L>,
    params: StateV,
    s0: StateV,
    s1: StateV,
) -> bool {
    exists|n: nat, cur: Executable<L>|
        #![trigger reach_rel(start, params, s0, Some(cur), s1, n)]
        reach_rel(start, params, s0, Some(cur), s1, n) && sync_refuses(cur)
}

/// Runs one unit of a traversal in a synchronous context, recording into the
/// sink where the unit is sealed. An asynchronous unit is refused with the
/// shared state untouched; every other unit runs.
fn run_unit<L: NodeLogic, T: Telemetry>(
    e: &Executable<L>,
    params: &State,
    shared: &mut State,
    sink: &mut T,
) -> (r: Result<Option<String>, FlowError>)
    ensures
        r matches Ok(a) ==> unit_run_rel(*e, params@, old(shared)@, final(shared)@, a.deep_view()),
        r is Err ==> sync_refuses(*e) && final(shared)@ == old(shared)@,
        !sync_refuses(*e) ==> r is Ok,
{
    match e {
        Executable::Sync(n) => {
            let a = n.run_with_params(shared, params);
            Ok(a)
        },
        Executable::Async(_) => Err(FlowError::AsyncUnitInSyncFlow),
        Executable::Sealed(b) => {
            let r = b.run_with_telemetry(shared, sink);
            r
        },
    }
}

/// The routing orchestrator for synchronous graphs: a unit itself, with its
/// own parameters and successor edges, that drives a traversal from a start
/// unit.
///
/// Flows nest by composition rather than by a union arm: a graph whose
/// behaviour type carries an inner flow can run it from its phases, reading
/// the shared state in `prep` and writing the result back in `post` —
/// `BatchFlow` is this pattern for the run-once-per-element case. A nested
/// flow that reaches an asynchronous unit inside a synchronous traversal is
/// exactly the fatal refusal this flow's own run reports.
pub struct Flow<L> {
    pub data: NodeCore<L>,
    pub start: Executable<L>,
}

impl<L: NodeLogic> Flow<L> {
    /// Wraps a start unit into a flow with no parameters of its own.
    pub fn new(start: Node<L>) -> (r: Flow<L>)
        ensures
            r.start == Executable::Sync(start),
            r.data.params@ == Map::<Seq<char>, crate::value::Val>::empty(),
            r.data.successors@ == Map::<Seq<char>, Executable<L>>::empty(),
    {
        Flow { data: NodeCore::new(), start: Executable::Sync(start) }
    }

    /// Replaces the flow's start unit.
    pub fn start(&mut self, start: Node<L>)
        ensures
            final(self).start == Executable::Sync(start),
            final(self).data.params == old(self).data.params,
            final(self).data.successors == old(self).data.successors,
    {
        self.start = Executable::Sync(start);
    }

    /// Replaces the flow's own parameters: the snapshot every unit along a
    /// traversal receives.
    pub fn set_params(&mut self, params: State)
        ensures
            final(self).data.params == params,
            final(self).data.successors == old(self).data.successors,
            final(self).start == old(self).start,
    {
        self.data.params = params;
    }

    /// Runs the traversal without a telemetry sink: the final action string
    /// comes back as `Ok(Some(..))`, and reaching an asynchronous unit is a
    /// fatal refusal.
    pub fn run(&self, shared: &mut State) -> (r: Result<Option<String>, FlowError>)
        ensures
            r matches Ok(a) ==> run_completes(
                self.start,
                self.data.params@,
                old(shared)@,
                final(shared)@,
                a.deep_view(),
            ),
            r is Err ==> run_refused(self.start, self.data.params@, old(shared)@, final(shared)@),
    {
        let mut sink = NoTelemetry;
        self.run_core(shared, &mut sink, &self.data.params)
    }

    /// Runs the traversal with the given parameters in place of the flow's
    /// stored ones, leaving the flow untouched.
    pub fn run_with_params(&self, shared: &mut State, params: &State) -> (r: Result<
        Option<String>,
        FlowError,
    >)
        ensures
            r matches Ok(a) ==> run_completes(
                self.start,
                params@,
                old(shared)@,
                final(shared)@,
                a.deep_view(),
            ),
            r is Err ==> run_refused(self.start, params@, old(shared)@, final(shared)@),
    {
        let mut sink = NoTelemetry;
        self.run_core(shared, &mut sink, params)
    }

    /// Runs the traversal with a telemetry sink attached: each sealed unit
    /// along the way records its trace into the sink.
    pub fn run_with_telemetry<T: Telemetry>(&self, shared: &mut State, sink: &mut T) -> (r: Result<
        Option<String>,
        FlowError,
    >)
        ensures
            r matches Ok(a) ==> run_completes(
                self.start,
                self.data.params@,
                old(shared)@,
                final(shared)@,
                a.deep_view(),
            ),
            r is Err ==> run_refused(self.start, self.data.params@, old(shared)@, final(shared)@),
    {
        self.run_core(shared, sink, &self.data.params)
    }

    /// The traversal loop: run the current unit, default the action, follow
    /// the matching successor edge until no edge matches, handing every unit
    /// the flow's own parameter snapshot.
    fn run_core<T: Telemetry>(&self, shared: &mut State, sink: &mut T, params: &State) -> (r:
        Result<Option<String>, FlowError>)
        ensures
            r matches Ok(a) ==> run_completes(
                self.start,
                params@,
                old(shared)@,
                final(shared)@,
                a.deep_view(),
            ),
            r is Err ==> run_refused(self.start, params@, old(shared)@, final(shared)@),
    {
        let ghost params0 = params@;
        let ghost s0 = shared@;
        let mut cur: &Executable<L> = &self.start;
        let ghost mut n: nat = 0;
        proof {
            assert(reach_rel(self.start, params0, s0, Some(self.start), shared@, 0nat));
        }
        loop
            invariant
                params0 == params@,
                s0 == old(shared)@,
                reach_rel(self.start, params0, s0, Some(*cur), shared@, n),
            decreases exe_size(*cur),
        {
            let ghost sp = shared@;
            let res = run_unit(cur, params, shared, sink);
            match res {
                Err(err) => {
                    proof {
                        assert(reach_rel(self.start, params0, s0, Some(*cur), shared@, n));
                    }
                    return Err(err);
                },
                Ok(a) => {
                    let ghost av = a.deep_view();
                    let la: String = match a {
                        Some(s) => s,
                        None => "default".to_owned(),
                    };
                    let succs = cur.successors();
                    let nxt: Option<&Executable<L>> = succs.get(la.as_str());
                    let ghost nxt_v: Option<Executable<L>> = match nxt {
                        Some(x) => Some(*x),
                        None => None,
                    };
                    proof {
                        assert(la@ == default_action(av));
                        assert(nxt_v == route(*cur, la@));
                        assert(unit_run_rel(*cur, params0, sp, shared@, av));
                        assert(step_rel(*cur, params0, sp, shared@, la@, nxt_v));
                    }
                    match nxt {
                        Some(nx) => {
                            proof {
                                lemma_reach_step(
                                    self.start,
                                    params0,
                                    s0,
                                    *cur,
                                    sp,
                                    n,
                                    shared@,
                                    la@,
                                    nxt_v,
                                );
                                n = n + 1;
                                assert(exe_size(*nx) < exe_size(*cur));
                            }
                            cur = nx;
                        },
                        None => {
                            proof {
                                assert(reach_rel(self.start, params0, s0, Some(*cur), sp, n));
                                assert(step_rel(
                                    *cur,
                                    params0,
                                    sp,
                                    shared@,
                                    la@,
                                    None::<Executable<L>>,
                                ));
                            }
                            return Ok(Some(la));
                        },
                    }
                },
            }
        }
    }
}

/// The routing orchestrator for mixed graphs: structurally a flow, but its
/// traversal is driven by a cooperative scheduler outside this crate. This
/// crate carries its structure and the traversal decisions; what awaits is
/// the caller's.
pub struct AsyncFlow<L> {
    pub data: NodeCore<L>,
    pub start: Executable<L>,
}

impl<L: NodeLogic> AsyncFlow<L> {
    /// Wraps a start unit into a flow with no parameters of its own.
    pub fn new(start: Executable<L>) -> (r: AsyncFlow<L>)
        ensures
            r.start == start,
            r.data.params@ == Map::<Seq<char>, crate::value::Val>::empty(),
            r.data.successors@ == Map::<Seq<char>, Executable<L>>::empty(),
    {
        AsyncFlow { data: NodeCore::new(), start }
    }

    /// Replaces the flow's start unit.
    pub fn start(&mut self, start: Executable<L>)
        ensures
            final(self).start == start,
            final(self).data.params == old(self).data.params,
            final(self).data.successors == old(self).data.successors,
    {
        self.start = start;
    }

    /// Replaces the flow's own parameters.
    pub fn set_params(&mut self, params: State)
        ensures
            final(self).data.params == params,
            final(self).data.successors == old(self).data.successors,
            final(self).start == old(self).start,
    {
        self.data.params = params;
    }
}

/// What became of one unit of work dispatched to a blocking-work executor:
/// it completed with an action and the state it mutated, or it failed.
pub enum DispatchOutcome {
    Completed(Option<String>, State),
    Failed,
}

/// The action-defaulting rule of a traversal, as a standalone step for
/// scheduler-driven callers.
pub fn resolve_action(a: Option<String>) -> (r: String)
    ensures
        r@ == default_action(a.deep_view()),
{
    match a {
        Some(s) => s,
        None => "default".to_owned(),
    }
}

/// The merge-or-discard rule for dispatched synchronous work: completed work
/// hands back the state it mutated and its action, defaulted; failed work is
/// discarded entirely, the fallback state is kept, and the traversal goes on
/// under the action `"default"`.
pub fn resolve_dispatch(outcome: DispatchOutcome, fallback: State) -> (r: (String, State))
    ensures
        match outcome {
            DispatchOutcome::Completed(a, s) => r.0@ == default_action(a.deep_view()) && r.1 == s,
            DispatchOutcome::Failed => r.0@ == "default"@ && r.1 == fallback,
        },
{
    match outcome {
        DispatchOutcome::Completed(a, s) => (resolve_action(a), s),
        DispatchOutcome::Failed => ("default".to_owned(), fallback),
    }
}

} // verus!
