use orichalcum::flow::{DispatchOutcome, Flow, FlowError, resolve_dispatch};
use orichalcum::node::{AsyncNode, Executable, Node, NodeLogic, PromptInfo, SealInfo};
use orichalcum::state::State;
use orichalcum::value::NodeValue;

#[derive(Clone)]
struct SimpleLogic {
    id: String,
    next_action: Option<String>,
}

impl NodeLogic for SimpleLogic {
    fn prep(&self, _params: &State, _shared: &State) -> NodeValue {
        NodeValue::Text(self.id.clone())
    }

    fn exec(&self, input: &NodeValue) -> NodeValue {
        input.clone()
    }

    fn post(&self, shared: &mut State, prep_res: NodeValue, _exec_res: NodeValue) -> Option<String> {
        let id = match &prep_res {
            NodeValue::Text(s) => s.clone(),
            _ => "unknown".to_string(),
        };
        shared.insert(format!("visited_{}", id), NodeValue::Bool(true));
        self.next_action.clone()
    }

    fn seal_info(&self) -> Option<SealInfo> {
        None
    }

    fn prompt_info(&self) -> Option<PromptInfo> {
        None
    }
}

#[test]
fn test_flow_creation() {
    let node = Node::new(SimpleLogic { id: "test".to_string(), next_action: None });
    let flow = Flow::new(node);

    assert!(flow.data.params.is_empty());
}

#[test]
fn test_flow_single_node() {
    let node = Node::new(SimpleLogic { id: "single".to_string(), next_action: None });
    let flow = Flow::new(node);
    let mut shared = State::new();

    let action = flow.run(&mut shared).unwrap();

    assert_eq!(shared.get("visited_single"), Some(&NodeValue::Bool(true)));
    // the node returned no action, so the traversal followed "default"
    assert_eq!(action, Some("default".to_string()));
}

#[test]
fn test_flow_chain() {
    let node3 = Node::new(SimpleLogic { id: "node3".to_string(), next_action: None });

    let node2 = Node::new(SimpleLogic {
        id: "node2".to_string(),
        next_action: Some("default".to_string()),
    })
    .next(Executable::Sync(node3));

    let node1 = Node::new(SimpleLogic {
        id: "node1".to_string(),
        next_action: Some("default".to_string()),
    })
    .next(Executable::Sync(node2));

    let flow = Flow::new(node1);
    let mut shared = State::new();

    let action = flow.run(&mut shared).unwrap();

    assert_eq!(shared.get("visited_node1"), Some(&NodeValue::Bool(true)));
    assert_eq!(shared.get("visited_node2"), Some(&NodeValue::Bool(true)));
    assert_eq!(shared.get("visited_node3"), Some(&NodeValue::Bool(true)));
    assert_eq!(action, Some("default".to_string()));
}

#[derive(Clone)]
struct BranchingLogic {
    branch_to: String,
}

impl NodeLogic for BranchingLogic {
    fn prep(&self, _params: &State, _shared: &State) -> NodeValue {
        NodeValue::Text(self.branch_to.clone())
    }

    fn exec(&self, input: &NodeValue) -> NodeValue {
        input.clone()
    }

    fn post(&self, shared: &mut State, prep_res: NodeValue, _exec_res: NodeValue) -> Option<String> {
        let branch = match &prep_res {
            NodeValue::Text(s) => s.clone(),
            _ => "default".to_string(),
        };
        shared.insert("branch_taken".to_string(), NodeValue::Text(branch.clone()));
        Some(branch)
    }

    fn seal_info(&self) -> Option<SealInfo> {
        None
    }

    fn prompt_info(&self) -> Option<PromptInfo> {
        None
    }
}

enum EitherLogic {
    Simple(SimpleLogic),
    Branching(BranchingLogic),
}

impl NodeLogic for EitherLogic {
    fn prep(&self, params: &State, shared: &State) -> NodeValue {
        match self {
            EitherLogic::Simple(l) => l.prep(params, shared),
            EitherLogic::Branching(l) => l.prep(params, shared),
        }
    }

    fn exec(&self, input: &NodeValue) -> NodeValue {
        match self {
            EitherLogic::Simple(l) => l.exec(input),
            EitherLogic::Branching(l) => l.exec(input),
        }
    }

    fn post(&self, shared: &mut State, prep_res: NodeValue, exec_res: NodeValue) -> Option<String> {
        match self {
            EitherLogic::Simple(l) => l.post(shared, prep_res, exec_res),
            EitherLogic::Branching(l) => l.post(shared, prep_res, exec_res),
        }
    }

    fn seal_info(&self) -> Option<SealInfo> {
        None
    }

    fn prompt_info(&self) -> Option<PromptInfo> {
        None
    }
}

#[test]
fn test_flow_branching() {
    let node2b = Node::new(EitherLogic::Simple(SimpleLogic {
        id: "node2b".to_string(),
        next_action: None,
    }));
    let node2a = Node::new(EitherLogic::Simple(SimpleLogic {
        id: "node2a".to_string(),
        next_action: None,
    }));

    let node1 = Node::new(EitherLogic::Branching(BranchingLogic {
        branch_to: "branch_a".to_string(),
    }))
        .next_on("branch_a", Executable::Sync(node2a))
        .next_on("branch_b", Executable::Sync(node2b));

    let flow = Flow::new(node1);
    let mut shared = State::new();

    let action = flow.run(&mut shared).unwrap();

    assert_eq!(
        shared.get("branch_taken"),
        Some(&NodeValue::Text("branch_a".to_string()))
    );
    assert_eq!(shared.get("visited_node2a"), Some(&NodeValue::Bool(true)));
    assert!(shared.get("visited_node2b").is_none());
    assert_eq!(action, Some("default".to_string()));
}

#[derive(Clone)]
struct ParamLogic;

impl NodeLogic for ParamLogic {
    fn prep(&self, params: &State, _shared: &State) -> NodeValue {
        match params.get("test_param") {
            Some(v) => v.clone(),
            None => NodeValue::Null,
        }
    }

    fn exec(&self, input: &NodeValue) -> NodeValue {
        input.clone()
    }

    fn post(&self, shared: &mut State, prep_res: NodeValue, _exec_res: NodeValue) -> Option<String> {
        shared.insert("received_param".to_string(), prep_res);
        None
    }

    fn seal_info(&self) -> Option<SealInfo> {
        None
    }

    fn prompt_info(&self) -> Option<PromptInfo> {
        None
    }
}

#[test]
fn test_flow_with_params() {
    let node = Node::new(ParamLogic);
    let mut flow = Flow::new(node);
    let mut shared = State::new();
    let mut params = State::new();
    params.insert("test_param".to_string(), NodeValue::Text("test_value".to_string()));

    flow.set_params(params);

    let action = flow.run(&mut shared).unwrap();

    assert_eq!(
        shared.get("received_param"),
        Some(&NodeValue::Text("test_value".to_string()))
    );
    assert_eq!(action, Some("default".to_string()));
}

#[test]
fn test_flow_rejects_async_unit() {
    // a purely synchronous flow that reaches an asynchronous unit refuses
    // the run as a fatal condition; the equivalent scheduler-driven flow
    // carries no such restriction
    let async_node = AsyncNode::new(SimpleLogic { id: "async".to_string(), next_action: None });
    let node = Node::new(SimpleLogic {
        id: "test".to_string(),
        next_action: Some("default".to_string()),
    })
    .next(Executable::Async(async_node));

    let flow = Flow::new(node);
    let mut shared = State::new();

    let result = flow.run(&mut shared);
    assert_eq!(result, Err(FlowError::AsyncUnitInSyncFlow));
    // the unit before the refusal did run
    assert_eq!(shared.get("visited_test"), Some(&NodeValue::Bool(true)));
}

#[test]
fn test_resolve_dispatch_discards_failed_work() {
    let mut mutated = State::new();
    mutated.insert("x".to_string(), NodeValue::Int(1));
    let fallback = State::new();
    let (action, state) = resolve_dispatch(
        DispatchOutcome::Completed(Some("next".to_string()), mutated),
        fallback,
    );
    assert_eq!(action, "next".to_string());
    assert_eq!(state.get("x"), Some(&NodeValue::Int(1)));

    let mut fallback2 = State::new();
    fallback2.insert("kept".to_string(), NodeValue::Bool(true));
    let (action2, state2) = resolve_dispatch(DispatchOutcome::Failed, fallback2);
    assert_eq!(action2, "default".to_string());
    assert_eq!(state2.get("kept"), Some(&NodeValue::Bool(true)));
    assert!(state2.get("x").is_none());
}
