use vstd::prelude::*;
use crate::flow::FlowError;
use crate::hashing::{FNV_OFFSET, fnv_str, fnv_str_spec, hex16, hex16_spec, sort_strings, sort_strs, str_views};
use crate::node::{AsyncNode, Executable, Node, NodeLogic, exe_params, node_run_rel, sync_refuses, unit_run_rel};
use crate::signature::{Signature, instruction_hash, instruction_hash_spec, structural_hash_spec};
use crate::state::State;
use crate::strmap::StrMap;
use crate::telemetry::{Telemetry, TraceEntry};
use crate::value::{Val, NodeValue, clone_value};

verus! {

/// Trait for units that declare a structural contract and a global identity:
/// what a behaviour must offer to be sealed.
pub trait Sealable {
    fn signature(&self) -> Signature;

    fn task_id(&self) -> String;
}

/// Trait for units whose behaviour is driven by a natural-language
/// instruction and a model.
pub trait Promptable {
    fn instruction(&self) -> Option<String>;

    fn model(&self) -> Option<String>;
}

/// An immutable wrapper around a unit that snapshots its identity: the
/// declared signature, a hash over the signature's field names, a hash over
/// its instruction material, and the model it is bound to. Only the
/// optimization metadata slots are meant to be filled in later; the identity
/// fields are exposed because the graph-walk specifications (traversal,
/// validation, tracing) are stated over them, and are read-only by the same
/// convention as the original metadata slots. The wrapped unit's type is a
/// parameter so that the wrapper and the unit union do not form a mutually
/// recursive pair of datatypes.
pub struct SealedCore<E> {
    pub inner: E,
    pub task_id: String,
    pub signature: Signature,
    pub signature_hash: String,
    pub instruction_hash: String,
    pub model_name: String,
    pub training_hash: Option<String>,
    pub optimization_config_hash: Option<String>,
    pub fitness_score: Option<i64>,
    pub weights_path: Option<String>,
}

/// A sealed unit wrapping an executable of behaviour `L`.
pub type SealedNode<L> = SealedCore<Executable<L>>;

/// What one run of a sealed unit may do to the shared state: the unit inside
/// runs under its own stored parameters.
pub open spec fn sealed_run_rel<L: NodeLogic>(
    sn: SealedNode<L>,
    shared0: Map<Seq<char>, Val>,
    shared1: Map<Seq<char>, Val>,
    action: Option<Seq<char>>,
) -> bool {
    unit_run_rel(sn.inner, exe_params(sn.inner), shared0, shared1, action)
}

/// Whether a trace entry carries this sealed unit's identity and the given
/// inputs and outputs.
pub open spec fn trace_matches<L>(sn: SealedNode<L>, entry: TraceEntry, p: Val, e: Val) -> bool {
    &&& entry.task_id@ == sn.task_id@
    &&& entry.signature_hash@ == sn.signature_hash@
    &&& entry.instruction_hash@ == sn.instruction_hash@
    &&& entry.model_name@ == sn.model_name@
    &&& entry.inputs.dv() == p
    &&& entry.outputs.dv() == e
    &&& entry.training_hash.deep_view() == sn.training_hash.deep_view()
    &&& entry.fitness_score == sn.fitness_score
}

fn clone_opt_string(o: &Option<String>) -> (r: Option<String>)
    ensures
        r == *o,
{
    match o {
        Some(s) => Some(s.clone()),
        None => None,
    }
}

impl<L: NodeLogic> SealedCore<Executable<L>> {
    /// Creates a sealed unit from the wrapped executable and its computed
    /// identity; the optimization metadata slots start empty.
    pub fn new(
        inner: Executable<L>,
        task_id: String,
        signature: Signature,
        signature_hash: String,
        instruction_hash: String,
        model_name: String,
    ) -> (r: SealedNode<L>)
        ensures
            r.inner == inner,
            r.task_id == task_id,
            r.signature == signature,
            r.signature_hash == signature_hash,
            r.instruction_hash == instruction_hash,
            r.model_name == model_name,
            r.training_hash is None,
            r.optimization_config_hash is None,
            r.fitness_score is None,
            r.weights_path is None,
    {
        SealedNode {
            inner,
            task_id,
            signature,
            signature_hash,
            instruction_hash,
            model_name,
            training_hash: None,
            optimization_config_hash: None,
            fitness_score: None,
            weights_path: None,
        }
    }

    pub fn task_id(&self) -> (r: &str)
        ensures
            r@ == self.task_id@,
    {
        self.task_id.as_str()
    }

    pub fn signature_hash(&self) -> (r: &str)
        ensures
            r@ == self.signature_hash@,
    {
        self.signature_hash.as_str()
    }

    pub fn instruction_hash(&self) -> (r: &str)
        ensures
            r@ == self.instruction_hash@,
    {
        self.instruction_hash.as_str()
    }

    pub fn model_name(&self) -> (r: &str)
        ensures
            r@ == self.model_name@,
    {
        self.model_name.as_str()
    }

    /// The unit inside, reachable read-only for graph walks.
    pub fn inner(&self) -> (r: &Executable<L>)
        ensures
            *r == self.inner,
    {
        &self.inner
    }

    /// Runs the sealed unit without a telemetry sink. The unit inside runs
    /// under its own stored parameters; an asynchronous unit inside is
    /// refused, with the shared state untouched.
    pub fn run(&self, shared: &mut State) -> (r: Result<Option<String>, FlowError>)
        ensures
            r matches Ok(a) ==> sealed_run_rel(*self, old(shared)@, final(shared)@, a.deep_view()),
            r is Err ==> sync_refuses(self.inner) && final(shared)@ == old(shared)@,
            !sync_refuses(self.inner) ==> r is Ok,
        decreases *self,
    {
        match &self.inner {
            Executable::Sync(n) => {
                let a = n.run(shared);
                Ok(a)
            },
            Executable::Async(_) => Err(FlowError::AsyncUnitInSyncFlow),
            Executable::Sealed(b) => {
                let r = b.run(shared);
                r
            },
        }
    }

    /// Runs the sealed unit and records one trace entry in the sink: the
    /// unit's identity, the prepared inputs, the execution outputs and the
    /// clock reading. A sealed unit nested inside records its own trace
    /// instead. An asynchronous unit inside is refused, with the shared state
    /// and the sink untouched.
    pub fn run_with_telemetry<T: Telemetry>(&self, shared: &mut State, sink: &mut T) -> (r: Result<
        Option<String>,
        FlowError,
    >)
        ensures
            r matches Ok(a) ==> sealed_run_rel(*self, old(shared)@, final(shared)@, a.deep_view()),
            r matches Ok(a) ==> (self.inner matches Executable::Sync(n) ==> exists|
                entry: TraceEntry,
                p: Val,
                e: Val,
            |
                #![trigger trace_matches(*self, entry, p, e)]
                T::record_rel(*old(sink), entry, *final(sink)) && trace_matches(*self, entry, p, e)
                    && n.behaviour.prep_rel(n.data.params@, old(shared)@, p)
                    && n.behaviour.exec_rel(p, e) && n.behaviour.post_rel(
                    old(shared)@,
                    p,
                    e,
                    final(shared)@,
                    a.deep_view(),
                )),
            r is Err ==> sync_refuses(self.inner) && final(shared)@ == old(shared)@ && *final(sink)
                == *old(sink),
            !sync_refuses(self.inner) ==> r is Ok,
        decreases *self,
    {
        match &self.inner {
            Executable::Sync(n) => {
                let p = n.behaviour.prep(&n.data.params, shared);
                let e = n.behaviour.exec(&p);
                let ghost pv = p.dv();
                let ghost ev = e.dv();
                let p_copy = clone_value(&p);
                let e_copy = clone_value(&e);
                let a = n.behaviour.post(shared, p_copy, e_copy);
                let entry = TraceEntry {
                    timestamp: crate::outside::now_secs(),
                    task_id: self.task_id.clone(),
                    signature_hash: self.signature_hash.clone(),
                    instruction_hash: self.instruction_hash.clone(),
                    inputs: p,
                    outputs: e,
                    model_name: self.model_name.clone(),
                    training_hash: clone_opt_string(&self.training_hash),
                    fitness_score: self.fitness_score,
                    metadata: StrMap::new(),
                };
                proof {
                    assert(entry.inputs.dv() == pv && entry.outputs.dv() == ev);
                    assert(trace_matches(*self, entry, pv, ev));
                }
                let ghost sink0 = *sink;
                sink.record(entry);
                proof {
                    assert(sink0 == *old(sink));
                    assert(T::record_rel(*old(sink), entry, *sink));
                    assert(n.behaviour.prep_rel(n.data.params@, old(shared)@, pv));
                    assert(n.behaviour.exec_rel(pv, ev));
                    assert(n.behaviour.post_rel(old(shared)@, pv, ev, shared@, a.deep_view()));
                    assert(node_run_rel(
                        n.behaviour,
                        n.data.params@,
                        old(shared)@,
                        shared@,
                        a.deep_view(),
                    ));
                }
                Ok(a)
            },
            Executable::Async(_) => Err(FlowError::AsyncUnitInSyncFlow),
            Executable::Sealed(b) => {
                let r = b.run_with_telemetry(shared, sink);
                r
            },
        }
    }
}

/// Why sealing was refused.
#[derive(Debug, Clone, Copy, PartialEq, Eq)]
pub enum SealError {
    /// The unit's behaviour declares no sealing capability.
    NotSealable,
    /// A builder was asked to seal without a declared signature.
    MissingSignature,
    /// A builder was asked to seal without a declared instruction.
    MissingInstruction,
}

impl SealError {
    /// A readable rendering of the refusal.
    pub fn message(&self) -> (r: String)
        ensures
            r@ == match self {
                SealError::NotSealable => "the unit's behaviour cannot be sealed"@,
                SealError::MissingSignature => "a signature is required to seal"@,
                SealError::MissingInstruction => "an instruction is required to seal"@,
            },
    {
        match self {
            SealError::NotSealable => "the unit's behaviour cannot be sealed".to_owned(),
            SealError::MissingSignature => "a signature is required to seal".to_owned(),
            SealError::MissingInstruction => "an instruction is required to seal".to_owned(),
        }
    }
}

/// One key's contribution to the parameter hash: the key itself, then its
/// value where that value is text.
pub open spec fn fnv_param_key(h: u64, m: Map<Seq<char>, Val>, k: Seq<char>) -> u64 {
    let hk = fnv_str_spec(h, k);
    if m.contains_key(k) && m[k] is Text {
        fnv_str_spec(hk, m[k]->Text_0)
    } else {
        hk
    }
}

/// Folds the given keys and their text values into the running hash, left
/// to right.
pub open spec fn fnv_params(h: u64, m: Map<Seq<char>, Val>, keys: Seq<Seq<char>>) -> u64
    decreases keys.len(),
{
    if keys.len() == 0 {
        h
    } else {
        fnv_param_key(fnv_params(h, m, keys.drop_last()), m, keys[keys.len() - 1])
    }
}

/// The fallback instruction hash of a unit without a prompt: a fold over its
/// parameter keys in sorted order, each followed by its value where that
/// value is text.
pub open spec fn params_hash_spec(m: Map<Seq<char>, Val>, keys: Seq<Seq<char>>) -> Seq<char> {
    hex16_spec(fnv_params(FNV_OFFSET, m, sort_strs(keys)))
}

/// Computes the fallback instruction hash from a unit's stored parameters.
pub fn params_hash(params: &State) -> (r: String)
    ensures
        r@ == params_hash_spec(params@, params.key_seq()),
{
    let n = params.num_entries();
    let mut keys: Vec<String> = Vec::new();
    let mut i: usize = 0;
    while i < n
        invariant
            i <= n,
            n == params.key_seq().len(),
            keys@.len() == i as nat,
            forall|j: int| 0 <= j < i as int ==> keys@[j]@ == params.key_seq()[j],
        decreases n - i,
    {
        keys.push(params.key_at(i).clone());
        i = i + 1;
    }
    proof {
        assert(str_views(keys@) =~= params.key_seq());
    }
    let sorted = sort_strings(keys);
    let ghost sk = sort_strs(params.key_seq());
    let mut h: u64 = FNV_OFFSET;
    let mut k: usize = 0;
    proof {
        assert(sk.subrange(0, 0) =~= Seq::<Seq<char>>::empty());
    }
    while k < sorted.len()
        invariant
            k <= sorted@.len(),
            str_views(sorted@) == sk,
            h == fnv_params(FNV_OFFSET, params@, sk.subrange(0, k as int)),
        decreases sorted@.len() - k,
    {
        let key = &sorted[k];
        h = fnv_str(h, key.as_str());
        match params.get(key.as_str()) {
            Some(v) => match v {
                NodeValue::Text(t) => {
                    h = fnv_str(h, t.as_str());
                },
                _ => {},
            },
            None => {},
        }
        proof {
            let sub1 = sk.subrange(0, k as int + 1);
            assert(sub1.drop_last() =~= sk.subrange(0, k as int));
            assert(sub1[sub1.len() - 1] == sk[k as int]);
            assert(sk[k as int] == key@);
        }
        k = k + 1;
    }
    proof {
        assert(sk.subrange(0, sorted@.len() as int) =~= sk);
    }
    hex16(h)
}

/// What the sealing of a unit promises about the wrapper it yields, given
/// the behaviour's declared capabilities and the unit's stored parameters.
pub open spec fn seal_yields<L: NodeLogic, E>(
    behaviour: L,
    params: State,
    inner: E,
    sn: SealedCore<E>,
) -> bool {
    behaviour.seal_cap() matches Some(cap) && {
        &&& sn.inner == inner
        &&& sn.task_id@ == cap.task_id
        &&& sn.signature.dv() == cap.signature
        &&& sn.signature_hash@ == structural_hash_spec(
            cap.signature.input_names(),
            cap.signature.output_names(),
        )
        &&& sn.instruction_hash@ == match behaviour.prompt_cap() {
            Some(pc) => instruction_hash_spec(pc.instruction, cap.signature),
            None => params_hash_spec(params@, params.key_seq()),
        }
        &&& sn.model_name@ == match behaviour.prompt_cap() {
            Some(pc) => match pc.model {
                Some(m) => m,
                None => "native"@,
            },
            None => "native"@,
        }
        &&& sn.training_hash is None
        &&& sn.optimization_config_hash is None
        &&& sn.fitness_score is None
        &&& sn.weights_path is None
    }
}

impl<L: NodeLogic> Node<L> {
    /// Seals the unit: snapshots its declared signature and task identifier
    /// together with the structural and instruction hashes into an immutable
    /// wrapper around it. A behaviour without the sealing capability is
    /// refused.
    pub fn seal(self) -> (r: Result<SealedNode<L>, SealError>)
        ensures
            r is Err <==> self.behaviour.seal_cap() is None,
            r matches Ok(sn) ==> seal_yields(
                self.behaviour,
                self.data.params,
                Executable::Sync(self),
                sn,
            ),
    {
        match self.behaviour.seal_info() {
            None => Err(SealError::NotSealable),
            Some(info) => {
                let sig_hash = info.signature.structural_hash();
                let prompt = self.behaviour.prompt_info();
                let instr_hash = match &prompt {
                    Some(pi) => instruction_hash(pi.instruction.as_str(), &info.signature),
                    None => params_hash(&self.data.params),
                };
                let model_name = match prompt {
                    Some(pi) => match pi.model {
                        Some(m) => m,
                        None => "native".to_owned(),
                    },
                    None => "native".to_owned(),
                };
                Ok(SealedNode::new(
                    Executable::Sync(self),
                    info.task_id,
                    info.signature,
                    sig_hash,
                    instr_hash,
                    model_name,
                ))
            },
        }
    }
}

impl<L: NodeLogic> AsyncNode<L> {
    /// Seals the asynchronous unit, exactly as for a synchronous one.
    pub fn seal(self) -> (r: Result<SealedNode<L>, SealError>)
        ensures
            r is Err <==> self.behaviour.seal_cap() is None,
            r matches Ok(sn) ==> seal_yields(
                self.behaviour,
                self.data.params,
                Executable::Async(self),
                sn,
            ),
    {
        match self.behaviour.seal_info() {
            None => Err(SealError::NotSealable),
            Some(info) => {
                let sig_hash = info.signature.structural_hash();
                let prompt = self.behaviour.prompt_info();
                let instr_hash = match &prompt {
                    Some(pi) => instruction_hash(pi.instruction.as_str(), &info.signature),
                    None => params_hash(&self.data.params),
                };
                let model_name = match prompt {
                    Some(pi) => match pi.model {
                        Some(m) => m,
                        None => "native".to_owned(),
                    },
                    None => "native".to_owned(),
                };
                Ok(SealedNode::new(
                    Executable::Async(self),
                    info.task_id,
                    info.signature,
                    sig_hash,
                    instr_hash,
                    model_name,
                ))
            },
        }
    }
}

impl<L: NodeLogic> Sealable for SealedCore<Executable<L>> {
    fn signature(&self) -> Signature {
        self.signature.clone()
    }

    fn task_id(&self) -> String {
        self.task_id.clone()
    }
}

} // verus!
