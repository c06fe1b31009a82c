use orichalcum::batch::{
    AsyncParallelBatchLogic, BatchFlow, BatchLogic, new_async_batch_node,
    new_async_parallel_batch_node, new_batch_node,
};
use orichalcum::flow::Flow;
use orichalcum::node::{Executable, Node, NodeLogic, PromptInfo, SealInfo};
use orichalcum::state::State;
use orichalcum::value::NodeValue;

#[derive(Clone)]
struct MultiplyLogic;

impl NodeLogic for MultiplyLogic {
    fn prep(&self, _params: &State, _shared: &State) -> NodeValue {
        NodeValue::Null
    }

    fn exec(&self, input: &NodeValue) -> NodeValue {
        match input {
            NodeValue::Int(n) => NodeValue::Int(n * 2),
            other => other.clone(),
        }
    }

    fn post(&self, _shared: &mut State, _prep_res: NodeValue, _exec_res: NodeValue) -> Option<
        String,
    > {
        Some("default".to_string())
    }

    fn seal_info(&self) -> Option<SealInfo> {
        None
    }

    fn prompt_info(&self) -> Option<PromptInfo> {
        None
    }
}

#[test]
fn test_batch_logic_creation() {
    let batch_logic = BatchLogic::new(MultiplyLogic);

    let items = NodeValue::List(vec![NodeValue::Int(1), NodeValue::Int(2), NodeValue::Int(3)]);
    let result = batch_logic.exec(&items);

    assert_eq!(
        result,
        NodeValue::List(vec![NodeValue::Int(2), NodeValue::Int(4), NodeValue::Int(6)])
    );
}

#[test]
fn test_batch_logic_with_non_array_input() {
    let batch_logic = BatchLogic::new(MultiplyLogic);

    let result = batch_logic.exec(&NodeValue::Text("not an array".to_string()));
    assert_eq!(result, NodeValue::Null);
}

#[derive(Clone)]
struct TrackingLogic;

impl NodeLogic for TrackingLogic {
    fn prep(&self, _params: &State, _shared: &State) -> NodeValue {
        NodeValue::Text("prep_called".to_string())
    }

    fn exec(&self, input: &NodeValue) -> NodeValue {
        input.clone()
    }

    fn post(&self, shared: &mut State, prep_res: NodeValue, exec_res: NodeValue) -> Option<String> {
        shared.insert("prep_res".to_string(), prep_res);
        shared.insert("exec_res".to_string(), exec_res);
        shared.insert("post_called".to_string(), NodeValue::Bool(true));
        Some("default".to_string())
    }

    fn seal_info(&self) -> Option<SealInfo> {
        None
    }

    fn prompt_info(&self) -> Option<PromptInfo> {
        None
    }
}

#[test]
fn test_batch_logic_passthrough() {
    let batch_logic = BatchLogic::new(TrackingLogic);
    let params = State::new();
    let shared = State::new();
    let mut shared_mut = State::new();

    let prep_result = batch_logic.prep(&params, &shared);
    assert_eq!(prep_result, NodeValue::Text("prep_called".to_string()));

    let exec_result = batch_logic.exec(&NodeValue::List(vec![
        NodeValue::Int(1),
        NodeValue::Int(2),
        NodeValue::Int(3),
    ]));
    assert!(matches!(exec_result, NodeValue::List(_)));

    let post_result = batch_logic.post(&mut shared_mut, prep_result, exec_result);
    assert_eq!(post_result, Some("default".to_string()));
    assert_eq!(shared_mut.get("post_called"), Some(&NodeValue::Bool(true)));
    assert!(shared_mut.get("prep_res").is_some());
    assert!(shared_mut.get("exec_res").is_some());
}

#[test]
fn test_new_batch_node() {
    let mut batch_node = new_batch_node(MultiplyLogic);

    let mut shared = State::new();
    let mut params = State::new();
    params.insert(
        "items".to_string(),
        NodeValue::List(vec![NodeValue::Int(1), NodeValue::Int(2), NodeValue::Int(3)]),
    );
    batch_node.set_params(params);

    let action = batch_node.run_with_params(&mut shared, &State::new());
    assert_eq!(action, Some("default".to_string()));
}

#[derive(Clone)]
struct PrepareItemsLogic;

impl NodeLogic for PrepareItemsLogic {
    fn prep(&self, _params: &State, _shared: &State) -> NodeValue {
        NodeValue::List(vec![
            NodeValue::Int(1),
            NodeValue::Int(2),
            NodeValue::Int(3),
            NodeValue::Int(4),
            NodeValue::Int(5),
        ])
    }

    fn exec(&self, input: &NodeValue) -> NodeValue {
        input.clone()
    }

    fn post(&self, shared: &mut State, prep_res: NodeValue, exec_res: NodeValue) -> Option<String> {
        shared.insert("items".to_string(), prep_res);
        shared.insert("exec_input".to_string(), exec_res);
        Some("default".to_string())
    }

    fn seal_info(&self) -> Option<SealInfo> {
        None
    }

    fn prompt_info(&self) -> Option<PromptInfo> {
        None
    }
}

enum MixedLogic {
    Prepare(PrepareItemsLogic),
    Batch(BatchLogic<MultiplyLogic>),
}

impl NodeLogic for MixedLogic {
    fn prep(&self, params: &State, shared: &State) -> NodeValue {
        match self {
            MixedLogic::Prepare(l) => l.prep(params, shared),
            MixedLogic::Batch(l) => l.prep(params, shared),
        }
    }

    fn exec(&self, input: &NodeValue) -> NodeValue {
        match self {
            MixedLogic::Prepare(l) => l.exec(input),
            MixedLogic::Batch(l) => l.exec(input),
        }
    }

    fn post(&self, shared: &mut State, prep_res: NodeValue, exec_res: NodeValue) -> Option<String> {
        match self {
            MixedLogic::Prepare(l) => l.post(shared, prep_res, exec_res),
            MixedLogic::Batch(l) => l.post(shared, prep_res, exec_res),
        }
    }

    fn seal_info(&self) -> Option<SealInfo> {
        None
    }

    fn prompt_info(&self) -> Option<PromptInfo> {
        None
    }
}

#[test]
fn test_batch_node_in_flow() {
    let batch_node = Node::new(MixedLogic::Batch(BatchLogic::new(MultiplyLogic)));
    let prepare_node =
        Node::new(MixedLogic::Prepare(PrepareItemsLogic)).next(Executable::Sync(batch_node));

    let flow = Flow::new(prepare_node);
    let mut shared = State::new();

    let action = flow.run(&mut shared).unwrap();
    assert_eq!(action, Some("default".to_string()));
}

#[test]
fn test_parallel_batch_ordering_contract() {
    // the parallel batch behaviour carries the same element-wise, input-order
    // contract as the sequential one
    let logic = AsyncParallelBatchLogic::new(MultiplyLogic);
    assert_eq!(logic.max_concurrency, 50);
    let logic = logic.with_concurrency(2);
    assert_eq!(logic.max_concurrency, 2);

    let result = logic.exec(&NodeValue::List(vec![
        NodeValue::Int(1),
        NodeValue::Int(2),
        NodeValue::Int(3),
    ]));
    assert_eq!(
        result,
        NodeValue::List(vec![NodeValue::Int(2), NodeValue::Int(4), NodeValue::Int(6)])
    );

    let null_result = logic.exec(&NodeValue::Text("not an array".to_string()));
    assert_eq!(null_result, NodeValue::Null);
}

#[test]
fn test_async_batch_node_builders() {
    let n1 = new_async_batch_node(MultiplyLogic);
    assert!(n1.data.successors.is_empty());
    let n2 = new_async_parallel_batch_node(AsyncParallelBatchLogic::new(MultiplyLogic));
    assert!(n2.data.successors.is_empty());
}

#[derive(Clone)]
struct AccumulateLogic;

impl NodeLogic for AccumulateLogic {
    fn prep(&self, params: &State, shared: &State) -> NodeValue {
        let step = match params.get("step") {
            Some(NodeValue::Int(n)) => *n,
            _ => 0,
        };
        let so_far = match shared.get("total") {
            Some(NodeValue::Int(n)) => *n,
            _ => 0,
        };
        NodeValue::Int(so_far + step)
    }

    fn exec(&self, input: &NodeValue) -> NodeValue {
        input.clone()
    }

    fn post(&self, shared: &mut State, _prep_res: NodeValue, exec_res: NodeValue) -> Option<String> {
        shared.insert("total".to_string(), exec_res);
        None
    }

    fn seal_info(&self) -> Option<SealInfo> {
        None
    }

    fn prompt_info(&self) -> Option<PromptInfo> {
        None
    }
}

#[test]
fn test_batch_flow_threads_shared_state() {
    // each iteration runs the inner flow under that iteration's parameters,
    // and later iterations observe earlier writes
    let inner = Flow::new(Node::new(AccumulateLogic));
    let batch = BatchFlow::new(inner, |_params: &State, _shared: &State| {
        NodeValue::List(vec![
            NodeValue::Object(vec![("step".to_string(), NodeValue::Int(1))]),
            NodeValue::Object(vec![("step".to_string(), NodeValue::Int(2))]),
            NodeValue::Object(vec![("step".to_string(), NodeValue::Int(3))]),
        ])
    });
    let mut shared = State::new();
    let action = batch.run(&mut shared).unwrap();
    assert_eq!(action, Some("default".to_string()));
    assert_eq!(shared.get("total"), Some(&NodeValue::Int(6)));
}

#[test]
fn test_batch_flow_base_params_win() {
    // on a conflicting key the inner flow's stored parameters overlay the
    // iteration's own
    let mut inner = Flow::new(Node::new(AccumulateLogic));
    let mut base = State::new();
    base.insert("step".to_string(), NodeValue::Int(10));
    inner.set_params(base);
    let batch = BatchFlow::new(inner, |_params: &State, _shared: &State| {
        NodeValue::List(vec![
            NodeValue::Object(vec![("step".to_string(), NodeValue::Int(1))]),
            NodeValue::Object(vec![("step".to_string(), NodeValue::Int(2))]),
        ])
    });
    let mut shared = State::new();
    batch.run(&mut shared).unwrap();
    assert_eq!(shared.get("total"), Some(&NodeValue::Int(20)));
}

#[test]
fn test_batch_flow_non_array_is_noop() {
    let inner = Flow::new(Node::new(AccumulateLogic));
    let batch = BatchFlow::new(inner, |_params: &State, _shared: &State| {
        NodeValue::Text("not an array".to_string())
    });
    let mut shared = State::new();
    let action = batch.run(&mut shared).unwrap();
    assert_eq!(action, Some("default".to_string()));
    assert!(shared.get("total").is_none());
}
