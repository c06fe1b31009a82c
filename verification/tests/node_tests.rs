use orichalcum::node::{Executable, Node, NodeLogic, PromptInfo, SealInfo};
use orichalcum::state::State;
use orichalcum::value::NodeValue;

#[derive(Clone)]
struct TestLogic;

impl NodeLogic for TestLogic {
    fn prep(&self, _params: &State, shared: &State) -> NodeValue {
        match shared.get("test") {
            Some(v) => v.clone(),
            None => NodeValue::Null,
        }
    }

    fn exec(&self, input: &NodeValue) -> NodeValue {
        match input {
            NodeValue::Int(n) => NodeValue::Int(n * 2),
            _ => NodeValue::Text("processed".to_string()),
        }
    }

    fn post(&self, shared: &mut State, prep_res: NodeValue, exec_res: NodeValue) -> Option<String> {
        shared.insert("prep".to_string(), prep_res);
        shared.insert("exec".to_string(), exec_res);
        Some("default".to_string())
    }

    fn seal_info(&self) -> Option<SealInfo> {
        None
    }

    fn prompt_info(&self) -> Option<PromptInfo> {
        None
    }
}

#[test]
fn test_node_creation() {
    let node = Node::new(TestLogic);
    assert!(node.data.params.is_empty());
    assert!(node.data.successors.is_empty());
}

#[test]
fn test_node_set_params() {
    let mut node = Node::new(TestLogic);
    let mut params = State::new();
    params.insert("key".to_string(), NodeValue::Text("value".to_string()));
    let mut expected = State::new();
    expected.insert("key".to_string(), NodeValue::Text("value".to_string()));
    node.set_params(params);
    assert_eq!(
        node.data.params.get("key"),
        expected.get("key"),
    );
    assert_eq!(node.data.params.len(), 1);
}

#[test]
fn test_node_next() {
    let node1 = Node::new(TestLogic);
    let node2 = Node::new(TestLogic);
    let node1_with_next = node1.next(Executable::Sync(node2));

    assert_eq!(node1_with_next.data.successors.len(), 1);
    assert!(node1_with_next.data.successors.contains_key("default"));
}

#[test]
fn test_node_next_on() {
    let node1 = Node::new(TestLogic);
    let node2 = Node::new(TestLogic);
    let node1_with_next = node1.next_on("custom", Executable::Sync(node2));

    assert_eq!(node1_with_next.data.successors.len(), 1);
    assert!(node1_with_next.data.successors.contains_key("custom"));
}

#[test]
fn test_node_run() {
    let node = Node::new(TestLogic);
    let mut shared = State::new();
    shared.insert("test".to_string(), NodeValue::Int(42));

    let action = node.run(&mut shared);
    assert_eq!(action, Some("default".to_string()));
    assert_eq!(shared.get("prep"), Some(&NodeValue::Int(42)));
    assert_eq!(shared.get("exec"), Some(&NodeValue::Int(84)));
}

#[test]
fn test_node_run_with_params() {
    let node = Node::new(TestLogic);
    let mut shared = State::new();
    let mut params = State::new();
    params.insert("param".to_string(), NodeValue::Text("value".to_string()));

    let action = node.run_with_params(&mut shared, &params);
    assert_eq!(action, Some("default".to_string()));
    // prep is null since the "test" key is absent from the shared state
    assert_eq!(shared.get("prep"), Some(&NodeValue::Null));
    assert_eq!(shared.get("exec"), Some(&NodeValue::Text("processed".to_string())));
}

/// A spy behaviour that records the order in which its phases run.
#[derive(Clone)]
struct SpyLogic;

impl NodeLogic for SpyLogic {
    fn prep(&self, _params: &State, _shared: &State) -> NodeValue {
        // the only phase output the later phases can see is the value itself
        NodeValue::List(vec![NodeValue::Text("prep".to_string())])
    }

    fn exec(&self, input: &NodeValue) -> NodeValue {
        // exec has no shared-state access at all: it only sees `input`
        match input {
            NodeValue::List(items) => {
                let mut out = items.clone();
                out.push(NodeValue::Text("exec".to_string()));
                NodeValue::List(out)
            }
            _ => NodeValue::Null,
        }
    }

    fn post(&self, shared: &mut State, prep_res: NodeValue, exec_res: NodeValue) -> Option<String> {
        // post is the first phase that may write the shared state
        assert_eq!(
            prep_res,
            NodeValue::List(vec![NodeValue::Text("prep".to_string())])
        );
        shared.insert("trace".to_string(), exec_res);
        None
    }

    fn seal_info(&self) -> Option<SealInfo> {
        None
    }

    fn prompt_info(&self) -> Option<PromptInfo> {
        None
    }
}

#[test]
fn test_lifecycle_order_is_prep_exec_post() {
    let node = Node::new(SpyLogic);
    let mut shared = State::new();
    let action = node.run(&mut shared);
    assert_eq!(action, None);
    assert_eq!(
        shared.get("trace"),
        Some(&NodeValue::List(vec![
            NodeValue::Text("prep".to_string()),
            NodeValue::Text("exec".to_string()),
        ]))
    );
}

#[derive(Clone)]
struct MarkerLogic {
    tag: String,
}

impl NodeLogic for MarkerLogic {
    fn prep(&self, _params: &State, _shared: &State) -> NodeValue {
        NodeValue::Null
    }

    fn exec(&self, _input: &NodeValue) -> NodeValue {
        NodeValue::Null
    }

    fn post(&self, shared: &mut State, _prep_res: NodeValue, _exec_res: NodeValue) -> Option<
        String,
    > {
        shared.insert("ran".to_string(), NodeValue::Text(self.tag.clone()));
        None
    }

    fn seal_info(&self) -> Option<SealInfo> {
        None
    }

    fn prompt_info(&self) -> Option<PromptInfo> {
        None
    }
}

#[test]
fn test_edge_overwrite_keeps_second() {
    // registering two successors under one action keeps only the second
    let target_a = Node::new(MarkerLogic { tag: "first".to_string() });
    let target_b = Node::new(MarkerLogic { tag: "second".to_string() });
    let node = Node::new(MarkerLogic { tag: "start".to_string() })
        .next_on("go", Executable::Sync(target_a))
        .next_on("go", Executable::Sync(target_b));
    assert_eq!(node.data.successors.len(), 1);
    let succ = node.data.successors.get("go").unwrap();
    // run the surviving successor: only the second edge's tag appears
    let mut shared = State::new();
    match succ {
        Executable::Sync(n) => {
            let action = n.run(&mut shared);
            assert_eq!(action, None);
            assert_eq!(shared.get("ran"), Some(&NodeValue::Text("second".to_string())));
        }
        _ => panic!("expected a synchronous successor"),
    }
}

#[test]
fn test_value_clone_is_deep() {
    let v = NodeValue::Object(vec![
        (
            "items".to_string(),
            NodeValue::List(vec![NodeValue::Int(1), NodeValue::Bool(true)]),
        ),
        ("name".to_string(), NodeValue::Text("x".to_string())),
    ]);
    let c = v.clone();
    assert_eq!(v, c);
}

#[test]
fn test_state_overlay_prefers_overlay() {
    let mut base = State::new();
    base.insert("a".to_string(), NodeValue::Int(1));
    base.insert("b".to_string(), NodeValue::Int(2));
    let mut over = State::new();
    over.insert("b".to_string(), NodeValue::Int(20));
    over.insert("c".to_string(), NodeValue::Int(30));
    let merged = State::overlay(&base, &over);
    assert_eq!(merged.get("a"), Some(&NodeValue::Int(1)));
    assert_eq!(merged.get("b"), Some(&NodeValue::Int(20)));
    assert_eq!(merged.get("c"), Some(&NodeValue::Int(30)));
    assert_eq!(merged.len(), 3);
}
