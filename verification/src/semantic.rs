use vstd::prelude::*;
use crate::node::{
    AsyncNode, Executable, NodeLogic, PromptCapV, PromptInfo, SealCapV, SealInfo, StateV,
};
use crate::outside::{fresh_task_id, parse_json, parsed_json};
use crate::sealed::{Promptable, Sealable, SealError, SealedNode};
use crate::signature::{FieldV, Signature, instruction_hash, instruction_hash_spec,
    structural_hash_spec};
use crate::state::State;
use crate::value::{Val, NodeValue, clone_value, dv_entries, lemma_dv_entries};

verus! {

/// What gathering a unit's declared inputs from the shared state yields: an
/// object with one binding per input field, in declaration order; a missing
/// key binds to null.
pub open spec fn gather_inputs_spec(inputs: Seq<FieldV>, shared: StateV) -> Val {
    Val::Object(
        Seq::new(
            inputs.len(),
            |i: int|
                (
                    inputs[i].name,
                    if shared.contains_key(inputs[i].name) {
                        shared[inputs[i].name]
                    } else {
                        Val::Null
                    },
                ),
        ),
    )
}

/// Applying a parsed reply to the shared state: each declared output field
/// found in the reply object is bound, in declaration order; fields the
/// reply misses are left alone.
pub open spec fn apply_outputs_spec(
    s0: StateV,
    outputs: Seq<FieldV>,
    entries: Seq<(Seq<char>, Val)>,
) -> StateV
    decreases outputs.len(),
{
    if outputs.len() == 0 {
        s0
    } else {
        let prev = apply_outputs_spec(s0, outputs.drop_last(), entries);
        let name = outputs[outputs.len() - 1].name;
        match Val::object_get(entries, name) {
            Some(v) => prev.insert(name, v),
            None => prev,
        }
    }
}

/// How post-processing reads a unit's execution result: text that parses as
/// a JSON object has its declared output fields applied to the shared state;
/// anything else leaves the state alone.
pub open spec fn semantic_post_rel(sig_outputs: Seq<FieldV>, s0: StateV, exec_res: Val, s1: StateV) -> bool {
    match exec_res {
        Val::Text(t) => match parsed_json(t) {
            Some(pv) => match pv {
                Val::Object(entries) => s1 == apply_outputs_spec(s0, sig_outputs, entries),
                _ => s1 == s0,
            },
            None => s1 == s0,
        },
        _ => s1 == s0,
    }
}

/// The prompt lines describing the declared output fields, one per field.
pub open spec fn prompt_fields_spec(fs: Seq<FieldV>) -> Seq<char>
    decreases fs.len(),
{
    if fs.len() == 0 {
        Seq::empty()
    } else {
        prompt_fields_spec(fs.drop_last()) + "- "@ + fs[fs.len() - 1].name + ": "@ + fs[fs.len()
            - 1].description + "\n"@
    }
}

/// The full prompt a semantic unit sends: the instruction, the rendered
/// input data, and one line per declared output field.
pub open spec fn prompt_spec(instr: Seq<char>, input_text: Seq<char>, outputs: Seq<FieldV>) -> Seq<
    char,
> {
    "Task Instruction: "@ + instr + "\n\nInput Data:\n"@ + input_text + "\n\n"@
        + "Respond ONLY with a valid JSON object matching the following output keys:\n"@
        + prompt_fields_spec(outputs)
}

/// The behaviour of a semantic unit: it gathers its declared inputs from the
/// shared state, a remote language model turns the prompt into a reply, and
/// post-processing writes the declared outputs back. The remote call itself
/// happens in the scheduler-driven caller, between the phases; within this
/// crate the execution phase passes its input through unchanged.
pub struct SemanticLLMLogic {
    pub signature: Signature,
    pub instruction: String,
    pub task_id: String,
    pub model_override: Option<String>,
    pub default_model: Option<String>,
}

fn clone_opt_string(o: &Option<String>) -> (r: Option<String>)
    ensures
        r == *o,
{
    match o {
        Some(s) => Some(s.clone()),
        None => None,
    }
}

impl SemanticLLMLogic {
    pub fn new(signature: Signature, instruction: &str, task_id: &str) -> (r: Self)
        ensures
            r.signature == signature,
            r.instruction@ == instruction@,
            r.task_id@ == task_id@,
            r.model_override is None,
            r.default_model is None,
    {
        SemanticLLMLogic {
            signature,
            instruction: instruction.to_owned(),
            task_id: task_id.to_owned(),
            model_override: None,
            default_model: None,
        }
    }

    /// The hash over this unit's instruction material.
    pub fn instruction_hash(&self) -> (r: String)
        ensures
            r@ == instruction_hash_spec(self.instruction@, self.signature.dv()),
    {
        instruction_hash(self.instruction.as_str(), &self.signature)
    }

    /// The model a run of this unit uses: the explicit override, else the
    /// configured default, else the conventional native marker.
    pub fn execute_model_name(&self) -> (r: String)
        ensures
            r@ == match self.model_override {
                Some(m) => m@,
                None => match self.default_model {
                    Some(d) => d@,
                    None => "native"@,
                },
            },
    {
        match &self.model_override {
            Some(m) => m.clone(),
            None => match &self.default_model {
                Some(d) => d.clone(),
                None => "native".to_owned(),
            },
        }
    }

    /// Renders the prompt for a reply, from the already rendered input text.
    pub fn build_prompt(&self, input_text: &str) -> (r: String)
        ensures
            r@ == prompt_spec(self.instruction@, input_text@, self.signature.dv().outputs),
    {
        let mut out: String = "Task Instruction: ".to_owned();
        out.append(self.instruction.as_str());
        out.append("\n\nInput Data:\n");
        out.append(input_text);
        out.append("\n\n");
        out.append("Respond ONLY with a valid JSON object matching the following output keys:\n");
        let ghost fs = self.signature.dv().outputs;
        let ghost head = out@;
        let mut i: usize = 0;
        proof {
            assert(prompt_fields_spec(fs.subrange(0, 0)) =~= Seq::<char>::empty());
            assert(out@ =~= head + prompt_fields_spec(fs.subrange(0, 0)));
        }
        while i < self.signature.outputs.len()
            invariant
                i <= self.signature.outputs@.len(),
                fs == self.signature.dv().outputs,
                fs.len() == self.signature.outputs@.len(),
                forall|j: int| 0 <= j < fs.len() ==> #[trigger] fs[j]
                    == self.signature.outputs@[j].dv(),
                out@ == head + prompt_fields_spec(fs.subrange(0, i as int)),
            decreases self.signature.outputs@.len() - i,
        {
            out.append("- ");
            out.append(self.signature.outputs[i].name.as_str());
            out.append(": ");
            out.append(self.signature.outputs[i].description.as_str());
            out.append("\n");
            proof {
                let sub1 = fs.subrange(0, i as int + 1);
                assert(sub1.drop_last() =~= fs.subrange(0, i as int));
                assert(sub1[sub1.len() - 1] == fs[i as int]);
                assert(out@ =~= head + prompt_fields_spec(sub1));
            }
            i = i + 1;
        }
        proof {
            assert(fs.subrange(0, fs.len() as int) =~= fs);
            assert(out@ =~= prompt_spec(
                self.instruction@,
                input_text@,
                self.signature.dv().outputs,
            ));
        }
        out
    }
}

/// Looks up the first binding of `name` in an object's entries.
fn object_find<'a>(entries: &'a Vec<(String, NodeValue)>, name: &str) -> (r: Option<&'a NodeValue>)
    ensures
        match r {
            Some(v) => Val::object_get(dv_entries(entries@), name@) == Some(v.dv()),
            None => Val::object_get(dv_entries(entries@), name@) is None,
        },
{
    proof {
        lemma_dv_entries(entries@);
    }
    let ghost full = dv_entries(entries@);
    let mut i: usize = 0;
    proof {
        assert(full.skip(0) =~= full);
    }
    while i < entries.len()
        invariant
            i <= entries@.len(),
            full == dv_entries(entries@),
            full.len() == entries@.len(),
            forall|j: int| 0 <= j < entries@.len() ==> #[trigger] full[j] == (
                entries@[j].0@,
                entries@[j].1.dv(),
            ),
            Val::object_get(full, name@) == Val::object_get(full.skip(i as int), name@),
        decreases entries@.len() - i,
    {
        let hit = crate::strmap::str_eq(name, &entries[i].0);
        proof {
            let sfx = full.skip(i as int);
            assert(sfx.first() == full[i as int]);
            assert(sfx.drop_first() =~= full.skip(i as int + 1));
        }
        if hit {
            return Some(&entries[i].1);
        }
        i = i + 1;
    }
    proof {
        assert(full.skip(entries@.len() as int) =~= Seq::<(Seq<char>, Val)>::empty());
    }
    None
}

impl NodeLogic for SemanticLLMLogic {
    open spec fn prep_rel(&self, params: StateV, shared: StateV, out: Val) -> bool {
        out == gather_inputs_spec(self.signature.dv().inputs, shared)
    }

    open spec fn exec_rel(&self, input: Val, out: Val) -> bool {
        out == input
    }

    open spec fn post_rel(
        &self,
        shared0: StateV,
        prep_res: Val,
        exec_res: Val,
        shared1: StateV,
        action: Option<Seq<char>>,
    ) -> bool {
        semantic_post_rel(self.signature.dv().outputs, shared0, exec_res, shared1) && action
            == Some("default"@)
    }

    open spec fn seal_cap(&self) -> Option<SealCapV> {
        Some(SealCapV { signature: self.signature.dv(), task_id: self.task_id@ })
    }

    open spec fn prompt_cap(&self) -> Option<PromptCapV> {
        Some(
            PromptCapV { instruction: self.instruction@, model: self.model_override.deep_view() },
        )
    }

    fn prep(&self, _params: &State, shared: &State) -> (out: NodeValue) {
        let ghost fsv = self.signature.dv().inputs;
        let mut entries: Vec<(String, NodeValue)> = Vec::new();
        let mut i: usize = 0;
        while i < self.signature.inputs.len()
            invariant
                i <= self.signature.inputs@.len(),
                fsv == self.signature.dv().inputs,
                fsv.len() == self.signature.inputs@.len(),
                forall|j: int| 0 <= j < fsv.len() ==> #[trigger] fsv[j]
                    == self.signature.inputs@[j].dv(),
                entries@.len() == i as nat,
                forall|j: int| 0 <= j < i as int ==> (#[trigger] entries@[j].0@) == fsv[j].name
                    && entries@[j].1.dv() == (if shared@.contains_key(fsv[j].name) {
                    shared@[fsv[j].name]
                } else {
                    Val::Null
                }),
            decreases self.signature.inputs@.len() - i,
        {
            let name = self.signature.inputs[i].name.clone();
            proof {
                assert(fsv[i as int] == self.signature.inputs@[i as int].dv());
                assert(name@ == fsv[i as int].name);
            }
            let bound: NodeValue = match shared.get(name.as_str()) {
                Some(v) => clone_value(v),
                None => NodeValue::Null,
            };
            proof {
                assert(bound.dv() == (if shared@.contains_key(fsv[i as int].name) {
                    shared@[fsv[i as int].name]
                } else {
                    Val::Null
                }));
            }
            entries.push((name, bound));
            i = i + 1;
        }
        let out = NodeValue::Object(entries);
        proof {
            lemma_dv_entries(entries@);
            assert(dv_entries(entries@) =~= Seq::new(
                fsv.len(),
                |i: int|
                    (
                        fsv[i].name,
                        if shared@.contains_key(fsv[i].name) {
                            shared@[fsv[i].name]
                        } else {
                            Val::Null
                        },
                    ),
            ));
        }
        out
    }

    fn exec(&self, input: &NodeValue) -> (out: NodeValue) {
        clone_value(input)
    }

    fn post(&self, shared: &mut State, prep_res: NodeValue, exec_res: NodeValue) -> (action: Option<
        String,
    >) {
        match &exec_res {
            NodeValue::Text(t) => {
                match parse_json(t.as_str()) {
                    Some(parsed) => match parsed {
                        NodeValue::Object(entries) => {
                            proof {
                                lemma_dv_entries(entries@);
                            }
                            let ghost ev = dv_entries(entries@);
                            let ghost outs = self.signature.dv().outputs;
                            let ghost s0 = shared@;
                            let mut i: usize = 0;
                            while i < self.signature.outputs.len()
                                invariant
                                    i <= self.signature.outputs@.len(),
                                    ev == dv_entries(entries@),
                                    outs == self.signature.dv().outputs,
                                    outs.len() == self.signature.outputs@.len(),
                                    forall|j: int| 0 <= j < outs.len() ==> #[trigger] outs[j]
                                        == self.signature.outputs@[j].dv(),
                                    shared@ == apply_outputs_spec(
                                        s0,
                                        outs.subrange(0, i as int),
                                        ev,
                                    ),
                                decreases self.signature.outputs@.len() - i,
                            {
                                let name = &self.signature.outputs[i].name;
                                match object_find(&entries, name.as_str()) {
                                    Some(v) => {
                                        shared.insert(name.clone(), clone_value(v));
                                    },
                                    None => {},
                                }
                                proof {
                                    let sub1 = outs.subrange(0, i as int + 1);
                                    assert(sub1.drop_last() =~= outs.subrange(0, i as int));
                                    assert(sub1[sub1.len() - 1] == outs[i as int]);
                                }
                                i = i + 1;
                            }
                            proof {
                                assert(outs.subrange(0, outs.len() as int) =~= outs);
                            }
                        },
                        _ => {},
                    },
                    None => {},
                }
            },
            _ => {},
        }
        Some("default".to_owned())
    }

    fn seal_info(&self) -> (r: Option<SealInfo>) {
        Some(SealInfo { signature: self.signature.clone(), task_id: self.task_id.clone() })
    }

    fn prompt_info(&self) -> (r: Option<PromptInfo>) {
        Some(
            PromptInfo {
                instruction: self.instruction.clone(),
                model: clone_opt_string(&self.model_override),
            },
        )
    }
}

impl Sealable for SemanticLLMLogic {
    fn signature(&self) -> Signature {
        self.signature.clone()
    }

    fn task_id(&self) -> String {
        self.task_id.clone()
    }
}

impl Promptable for SemanticLLMLogic {
    fn instruction(&self) -> Option<String> {
        Some(self.instruction.clone())
    }

    fn model(&self) -> Option<String> {
        clone_opt_string(&self.model_override)
    }
}

/// Builds a sealed semantic unit from its declared parts. The signature and
/// the instruction are required; a task identifier is generated when none is
/// declared.
pub struct SemanticNodeBuilder {
    pub signature: Option<Signature>,
    pub instruction: Option<String>,
    pub task_id: Option<String>,
    pub model_override: Option<String>,
    pub default_model: Option<String>,
}

impl SemanticNodeBuilder {
    pub fn new() -> (r: Self)
        ensures
            r.signature is None,
            r.instruction is None,
            r.task_id is None,
            r.model_override is None,
            r.default_model is None,
    {
        SemanticNodeBuilder {
            signature: None,
            instruction: None,
            task_id: None,
            model_override: None,
            default_model: None,
        }
    }

    pub fn signature(self, sig: Signature) -> (r: Self)
        ensures
            r == (SemanticNodeBuilder { signature: Some(sig), ..self }),
    {
        SemanticNodeBuilder { signature: Some(sig), ..self }
    }

    pub fn instruction(self, instruction: &str) -> (r: Self)
        ensures
            r.instruction matches Some(s) && s@ == instruction@,
            r.signature == self.signature,
            r.task_id == self.task_id,
            r.model_override == self.model_override,
            r.default_model == self.default_model,
    {
        SemanticNodeBuilder { instruction: Some(instruction.to_owned()), ..self }
    }

    pub fn task_id(self, task_id: &str) -> (r: Self)
        ensures
            r.task_id matches Some(s) && s@ == task_id@,
            r.signature == self.signature,
            r.instruction == self.instruction,
            r.model_override == self.model_override,
            r.default_model == self.default_model,
    {
        SemanticNodeBuilder { task_id: Some(task_id.to_owned()), ..self }
    }

    pub fn model(self, model: &str) -> (r: Self)
        ensures
            r.model_override matches Some(s) && s@ == model@,
            r.signature == self.signature,
            r.instruction == self.instruction,
            r.task_id == self.task_id,
            r.default_model == self.default_model,
    {
        SemanticNodeBuilder { model_override: Some(model.to_owned()), ..self }
    }

    /// Declares the model a client would fall back to.
    pub fn default_model(self, model: &str) -> (r: Self)
        ensures
            r.default_model matches Some(s) && s@ == model@,
            r.signature == self.signature,
            r.instruction == self.instruction,
            r.task_id == self.task_id,
            r.model_override == self.model_override,
    {
        SemanticNodeBuilder { default_model: Some(model.to_owned()), ..self }
    }

    /// Seals the declared semantic unit: computes its identity hashes, wraps
    /// the unit and hands back the sealed executable. Sealing without a
    /// signature or an instruction is refused.
    pub fn seal(self) -> (r: Result<Executable<SemanticLLMLogic>, SealError>)
        ensures
            r is Err <==> (self.signature is None || self.instruction is None),
            r matches Err(e) ==> (if self.signature is None {
                e == SealError::MissingSignature
            } else {
                e == SealError::MissingInstruction
            }),
            r matches Ok(ex) ==> (ex matches Executable::Sealed(b) && {
                &&& (self.signature matches Some(sig) ==> {
                    &&& b.signature.dv() == sig.dv()
                    &&& b.signature_hash@ == structural_hash_spec(
                        sig.dv().input_names(),
                        sig.dv().output_names(),
                    )
                    &&& (self.instruction matches Some(instr) ==> b.instruction_hash@
                        == instruction_hash_spec(instr@, sig.dv()))
                })
                &&& (self.task_id matches Some(t) ==> b.task_id@ == t@)
                &&& (self.task_id is None ==> b.task_id@.len() == "autogen_"@.len() + 32)
                &&& b.model_name@ == match self.model_override {
                    Some(m) => m@,
                    None => match self.default_model {
                        Some(d) => d@,
                        None => "native"@,
                    },
                }
            }),
    {
        let signature = match self.signature {
            Some(s) => s,
            None => {
                return Err(SealError::MissingSignature);
            },
        };
        let instruction = match self.instruction {
            Some(s) => s,
            None => {
                return Err(SealError::MissingInstruction);
            },
        };
        let task_id = match self.task_id {
            Some(t) => t,
            None => {
                let mut generated: String = "autogen_".to_owned();
                generated.append(fresh_task_id().as_str());
                generated
            },
        };
        let mut logic = SemanticLLMLogic::new(signature.clone(), instruction.as_str(),
            task_id.as_str());
        logic.model_override = clone_opt_string(&self.model_override);
        logic.default_model = clone_opt_string(&self.default_model);
        let sig_hash = signature.structural_hash();
        let instr_hash = instruction_hash(instruction.as_str(), &signature);
        let model_name = logic.execute_model_name();
        proof {
            assert(signature.dv() == logic.signature.dv());
        }
        let node = AsyncNode::new(logic);
        Ok(
            Executable::Sealed(
                Box::new(
                    SealedNode::new(
                        Executable::Async(node),
                        task_id,
                        signature,
                        sig_hash,
                        instr_hash,
                        model_name,
                    ),
                ),
            ),
        )
    }
}

} // verus!
