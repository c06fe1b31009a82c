use orichalcum::node::{AsyncNode, Executable, NodeLogic, PromptInfo, SealInfo};
use orichalcum::state::State;
use orichalcum::value::NodeValue;

#[derive(Clone)]
struct AsyncTestLogic;

impl NodeLogic for AsyncTestLogic {
    fn prep(&self, _params: &State, _shared: &State) -> NodeValue {
        NodeValue::Null
    }

    fn exec(&self, input: &NodeValue) -> NodeValue {
        input.clone()
    }

    fn post(&self, _shared: &mut State, _prep_res: NodeValue, _exec_res: NodeValue) -> Option<
        String,
    > {
        None
    }

    fn seal_info(&self) -> Option<SealInfo> {
        None
    }

    fn prompt_info(&self) -> Option<PromptInfo> {
        None
    }
}

#[test]
fn test_async_node_creation() {
    let node = AsyncNode::new(AsyncTestLogic);
    assert!(node.data.params.is_empty());
    assert!(node.data.successors.is_empty());
}

#[test]
fn test_async_node_set_params() {
    let mut node = AsyncNode::new(AsyncTestLogic);
    let mut params = State::new();
    params.insert("key".to_string(), NodeValue::Text("value".to_string()));
    node.set_params(params);
    assert_eq!(
        node.data.params.get("key"),
        Some(&NodeValue::Text("value".to_string()))
    );
}

#[test]
fn test_async_node_next() {
    let node1 = AsyncNode::new(AsyncTestLogic);
    let node2 = AsyncNode::new(AsyncTestLogic);
    let node1_with_next = node1.next(Executable::Async(node2));

    assert_eq!(node1_with_next.data.successors.len(), 1);
    assert!(node1_with_next.data.successors.contains_key("default"));
}

#[test]
fn test_async_node_next_on() {
    let node1 = AsyncNode::new(AsyncTestLogic);
    let node2 = AsyncNode::new(AsyncTestLogic);
    let node1_with_next = node1.next_on("custom", Executable::Async(node2));

    assert_eq!(node1_with_next.data.successors.len(), 1);
    assert!(node1_with_next.data.successors.contains_key("custom"));
}
