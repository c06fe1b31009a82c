use orichalcum::flow::{Flow, FlowError};
use orichalcum::node::{Executable, Node, NodeLogic, PromptInfo, SealInfo};
use orichalcum::registry::{OptimizationRecord, OptimizationRegistry};
use orichalcum::sealed::SealError;
use orichalcum::semantic::{SemanticLLMLogic, SemanticNodeBuilder};
use orichalcum::signature::Signature;
use orichalcum::state::State;
use orichalcum::telemetry::{MemoryTelemetry, Telemetry};
use orichalcum::validation::{ValidationIssue, ValidationResult};
use orichalcum::value::NodeValue;

#[derive(Clone)]
struct MockSealableLogic {
    task_id: String,
    signature: Signature,
}

impl NodeLogic for MockSealableLogic {
    fn prep(&self, _params: &State, shared: &State) -> NodeValue {
        let mut inputs: Vec<(String, NodeValue)> = Vec::new();
        for f in &self.signature.inputs {
            let v = match shared.get(f.name.as_str()) {
                Some(v) => v.clone(),
                None => NodeValue::Null,
            };
            inputs.push((f.name.clone(), v));
        }
        NodeValue::Object(inputs)
    }

    fn exec(&self, input: &NodeValue) -> NodeValue {
        input.clone()
    }

    fn post(&self, _shared: &mut State, _prep_res: NodeValue, _exec_res: NodeValue) -> Option<
        String,
    > {
        None
    }

    fn seal_info(&self) -> Option<SealInfo> {
        Some(SealInfo { signature: self.signature.clone(), task_id: self.task_id.clone() })
    }

    fn prompt_info(&self) -> Option<PromptInfo> {
        None
    }
}

#[test]
fn test_flow_validation_success() {
    let logic1 = MockSealableLogic {
        task_id: "node1".to_string(),
        signature: "input1 -> output1".parse().unwrap(),
    };
    let logic2 = MockSealableLogic {
        task_id: "node2".to_string(),
        signature: "output1 -> result".parse().unwrap(),
    };

    let node1 = Node::new(logic1);
    let node2 = Node::new(logic2);
    let start_node = node1.next(Executable::Sync(node2));

    let flow = Flow::new(start_node);

    let result = flow.validate(vec!["input1".to_string()]);
    assert!(result.is_safe());
    assert_eq!(result.issues.len(), 0);
}

#[test]
fn test_flow_validation_failure() {
    let logic1 = MockSealableLogic {
        task_id: "node1".to_string(),
        signature: "input1 -> output1".parse().unwrap(),
    };

    let node1 = Node::new(logic1);
    let flow = Flow::new(node1);

    let result = flow.validate(vec![]);
    assert!(!result.is_safe());
    assert_eq!(result.issues.len(), 1);

    match &result.issues[0] {
        ValidationIssue::Error(msg) => {
            assert!(msg.contains("node1"));
            assert!(msg.contains("requires input 'input1'"));
        }
        _ => panic!("Expected error issue"),
    }
}

#[test]
fn test_flow_validation_visits_once() {
    // a task reachable twice is checked only on the first encounter
    let again = MockSealableLogic {
        task_id: "shared_task".to_string(),
        signature: "absent -> x".parse().unwrap(),
    };
    let first = MockSealableLogic {
        task_id: "shared_task".to_string(),
        signature: "absent -> x".parse().unwrap(),
    };
    let second = Node::new(again);
    let start = Node::new(first).next(Executable::Sync(second));
    let flow = Flow::new(start);
    let result = flow.validate(vec![]);
    // one error, not two: the second encounter of the task is a no-op
    assert_eq!(result.issues.len(), 1);
}

#[test]
fn test_telemetry_recording() {
    let logic = MockSealableLogic {
        task_id: "test_telemetry".to_string(),
        signature: "in -> out".parse().unwrap(),
    };

    let node = Node::new(logic);
    let sealed = node.seal().unwrap();

    let mut telemetry = MemoryTelemetry::new();
    let mut shared = State::new();
    shared.insert("in".to_string(), NodeValue::Text("data".to_string()));

    sealed.run_with_telemetry(&mut shared, &mut telemetry).unwrap();
    // flushing the in-memory sink is a no-op: nothing recorded is lost
    telemetry.flush();

    let traces = telemetry.get_traces();
    assert_eq!(traces.len(), 1);
    assert_eq!(traces[0].task_id, "test_telemetry");
    assert_eq!(
        traces[0].inputs,
        NodeValue::Object(vec![("in".to_string(), NodeValue::Text("data".to_string()))])
    );
}

#[test]
fn test_sealing_determinism() {
    // fresh instances with identical declared signature and instruction seal
    // to identical hashes
    let first = SemanticNodeBuilder::new()
        .signature("doc -> summary".parse().unwrap())
        .instruction("Summarise the document")
        .task_id("summarise")
        .seal()
        .unwrap();
    let second = SemanticNodeBuilder::new()
        .signature("doc -> summary".parse().unwrap())
        .instruction("Summarise the document")
        .task_id("summarise")
        .seal()
        .unwrap();
    let (sig1, instr1) = match &first {
        Executable::Sealed(b) => (b.signature_hash.clone(), b.instruction_hash.clone()),
        _ => panic!("expected a sealed unit"),
    };
    let (sig2, instr2) = match &second {
        Executable::Sealed(b) => (b.signature_hash.clone(), b.instruction_hash.clone()),
        _ => panic!("expected a sealed unit"),
    };
    assert_eq!(sig1, sig2);
    assert_eq!(instr1, instr2);

    // changing only a field description keeps the structural hash but
    // changes the instruction hash
    let described = SemanticNodeBuilder::new()
        .signature(Signature::new().input("doc", "the full document").output("summary", ""))
        .instruction("Summarise the document")
        .task_id("summarise")
        .seal()
        .unwrap();
    let (sig3, instr3) = match &described {
        Executable::Sealed(b) => (b.signature_hash.clone(), b.instruction_hash.clone()),
        _ => panic!("expected a sealed unit"),
    };
    assert_eq!(sig1, sig3);
    assert_ne!(instr1, instr3);
}

#[test]
fn test_seal_requires_capability() {
    #[derive(Clone)]
    struct PlainLogic;
    impl NodeLogic for PlainLogic {
        fn prep(&self, _params: &State, _shared: &State) -> NodeValue {
            NodeValue::Null
        }
        fn exec(&self, _input: &NodeValue) -> NodeValue {
            NodeValue::Null
        }
        fn post(&self, _shared: &mut State, _p: NodeValue, _e: NodeValue) -> Option<String> {
            None
        }
        fn seal_info(&self) -> Option<SealInfo> {
            None
        }
        fn prompt_info(&self) -> Option<PromptInfo> {
            None
        }
    }

    let node = Node::new(PlainLogic);
    match node.seal() {
        Err(e) => assert_eq!(e, SealError::NotSealable),
        Ok(_) => panic!("sealing a plain behaviour must be refused"),
    }

    match SemanticNodeBuilder::new().instruction("x").seal() {
        Err(e) => assert_eq!(e, SealError::MissingSignature),
        Ok(_) => panic!("sealing without a signature must be refused"),
    }
    match SemanticNodeBuilder::new().signature("a -> b".parse().unwrap()).seal() {
        Err(e) => assert_eq!(e, SealError::MissingInstruction),
        Ok(_) => panic!("sealing without an instruction must be refused"),
    }
}

#[test]
fn test_builder_generates_task_id() {
    let sealed = SemanticNodeBuilder::new()
        .signature("a -> b".parse().unwrap())
        .instruction("do")
        .seal()
        .unwrap();
    match &sealed {
        Executable::Sealed(b) => {
            assert!(b.task_id.starts_with("autogen_"));
            assert_eq!(b.task_id.len(), "autogen_".len() + 32);
        }
        _ => panic!("expected a sealed unit"),
    }
}

#[test]
fn test_semantic_post_applies_parsed_outputs() {
    // the reply text is parsed as a JSON object and the declared output
    // fields are written back; this fails if parsing handed the text through
    let logic = SemanticLLMLogic::new("in -> out".parse().unwrap(), "reply", "task");
    let mut shared = State::new();
    let action = logic.post(
        &mut shared,
        NodeValue::Null,
        NodeValue::Text("{\"out\": 5, \"extra\": true}".to_string()),
    );
    assert_eq!(action, Some("default".to_string()));
    assert_eq!(shared.get("out"), Some(&NodeValue::Int(5)));
    // undeclared reply fields are not written
    assert!(shared.get("extra").is_none());

    // a reply that is not valid JSON leaves the state alone
    let mut untouched = State::new();
    logic.post(
        &mut untouched,
        NodeValue::Null,
        NodeValue::Text("not json".to_string()),
    );
    assert!(untouched.get("out").is_none());
}

#[test]
fn test_semantic_prompt_and_prep() {
    let logic = SemanticLLMLogic::new(
        Signature::new().input("q", "").output("answer", "a short answer"),
        "Answer the question",
        "qa",
    );
    let prompt = logic.build_prompt("{\"q\": \"why\"}");
    assert!(prompt.starts_with("Task Instruction: Answer the question"));
    assert!(prompt.contains("{\"q\": \"why\"}"));
    assert!(prompt.contains("- answer: a short answer"));

    let mut shared = State::new();
    shared.insert("q".to_string(), NodeValue::Text("why".to_string()));
    let params = State::new();
    let gathered = logic.prep(&params, &shared);
    assert_eq!(
        gathered,
        NodeValue::Object(vec![("q".to_string(), NodeValue::Text("why".to_string()))])
    );
}

#[test]
fn test_registry_best_match() {
    let mut registry = OptimizationRegistry::new();
    let record = |task: &str, fit: Option<i64>| OptimizationRecord {
        task_id: task.to_string(),
        signature_hash: "sig".to_string(),
        instruction_hash: "instr".to_string(),
        training_hash: None,
        optimization_config_hash: None,
        fitness_score: fit,
        weights_path: None,
        created_at: 1,
        updated_at: 1,
    };
    registry.register(record("t1", Some(10)));
    registry.register(record("t2", Some(30)));
    registry.register(record("t3", None));

    assert!(registry.get_by_task_id("t2").is_some());
    assert!(registry.get_by_task_id("missing").is_none());

    let best = registry.find_best_match("sig", "instr").unwrap();
    assert_eq!(best.task_id, "t2");
    assert_eq!(best.fitness_score, Some(30));

    assert!(registry.find_best_match("other", "instr").is_none());

    // re-registering under the same task replaces the record
    registry.register(record("t2", Some(5)));
    let best2 = registry.find_best_match("sig", "instr").unwrap();
    assert_eq!(best2.task_id, "t1");
}

#[test]
fn test_validation_result_warnings_and_summary() {
    let mut result = ValidationResult::new();
    assert!(result.is_safe());
    assert!(!result.has_warnings());

    result.add_warning("output1 is present on some paths only".to_string());
    assert!(result.is_safe());
    assert!(result.has_warnings());

    result.add_error("input1 is missing".to_string());
    assert!(!result.is_safe());

    let lines = result.summary_lines();
    assert_eq!(lines.len(), 2);
    assert_eq!(lines[0], "Warning: output1 is present on some paths only".to_string());
    assert_eq!(lines[1], "Error: input1 is missing".to_string());

    let passed = ValidationResult::new().summary_lines();
    assert_eq!(passed.len(), 1);
}

#[test]
fn test_error_messages_render() {
    assert_eq!(
        FlowError::AsyncUnitInSyncFlow.message(),
        "a synchronous flow cannot drive an asynchronous unit".to_string()
    );
    assert_eq!(
        SealError::NotSealable.message(),
        "the unit's behaviour cannot be sealed".to_string()
    );
}
