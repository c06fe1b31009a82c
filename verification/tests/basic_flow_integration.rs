//! Integration test: a small greeting workflow driven end to end through a
//! synchronous flow, with validation, branching and parameter handling.

use orichalcum::flow::Flow;
use orichalcum::node::{Executable, Node, NodeLogic, PromptInfo, SealInfo};
use orichalcum::state::State;
use orichalcum::value::NodeValue;

#[derive(Clone)]
enum GreetingLogic {
    ValidateInput,
    GenerateGreeting,
    AnalyzeSentiment,
    PositiveResponse,
    NeutralResponse,
}

fn text_of(v: Option<&NodeValue>) -> Option<String> {
    match v {
        Some(NodeValue::Text(s)) => Some(s.clone()),
        _ => None,
    }
}

impl NodeLogic for GreetingLogic {
    fn prep(&self, _params: &State, shared: &State) -> NodeValue {
        match self {
            GreetingLogic::ValidateInput => match shared.get("user_name") {
                Some(v) => v.clone(),
                None => NodeValue::Null,
            },
            GreetingLogic::GenerateGreeting => match shared.get("user_name") {
                Some(v) => v.clone(),
                None => NodeValue::Text("Unknown".to_string()),
            },
            GreetingLogic::AnalyzeSentiment => match shared.get("user_name") {
                Some(v) => v.clone(),
                None => NodeValue::Text("Guest".to_string()),
            },
            _ => NodeValue::Null,
        }
    }

    fn exec(&self, input: &NodeValue) -> NodeValue {
        match self {
            GreetingLogic::ValidateInput => match input {
                NodeValue::Text(s) if !s.is_empty() => input.clone(),
                _ => NodeValue::Text("Guest".to_string()),
            },
            GreetingLogic::GenerateGreeting => {
                let name = match input {
                    NodeValue::Text(s) => s.clone(),
                    _ => "Unknown".to_string(),
                };
                NodeValue::Text(format!("Hello, {}! Welcome aboard.", name))
            }
            GreetingLogic::AnalyzeSentiment => {
                let name = match input {
                    NodeValue::Text(s) => s.clone(),
                    _ => "Guest".to_string(),
                };
                if name == "Guest" {
                    NodeValue::Text("neutral".to_string())
                } else {
                    NodeValue::Text("positive".to_string())
                }
            }
            GreetingLogic::PositiveResponse => {
                NodeValue::Text("We're glad to have you here!".to_string())
            }
            GreetingLogic::NeutralResponse => {
                NodeValue::Text("Feel free to explore and let us know if you need anything!"
                    .to_string())
            }
        }
    }

    fn post(&self, shared: &mut State, _prep_res: NodeValue, exec_res: NodeValue) -> Option<String> {
        match self {
            GreetingLogic::ValidateInput => {
                shared.insert("user_name".to_string(), exec_res);
                Some("default".to_string())
            }
            GreetingLogic::GenerateGreeting => {
                shared.insert("greeting".to_string(), exec_res);
                Some("default".to_string())
            }
            GreetingLogic::AnalyzeSentiment => {
                let sentiment = match &exec_res {
                    NodeValue::Text(s) => s.clone(),
                    _ => "neutral".to_string(),
                };
                shared.insert("sentiment".to_string(), exec_res);
                Some(sentiment)
            }
            GreetingLogic::PositiveResponse | GreetingLogic::NeutralResponse => {
                shared.insert("response".to_string(), exec_res);
                None
            }
        }
    }

    fn seal_info(&self) -> Option<SealInfo> {
        None
    }

    fn prompt_info(&self) -> Option<PromptInfo> {
        None
    }
}

fn build_flow() -> Flow<GreetingLogic> {
    let positive_node = Node::new(GreetingLogic::PositiveResponse);
    let neutral_node = Node::new(GreetingLogic::NeutralResponse);

    let sentiment_with_branches = Node::new(GreetingLogic::AnalyzeSentiment)
        .next_on("positive", Executable::Sync(positive_node))
        .next_on("neutral", Executable::Sync(neutral_node));

    let greeting_node_with_sentiment =
        Node::new(GreetingLogic::GenerateGreeting).next(Executable::Sync(sentiment_with_branches));

    let start_node =
        Node::new(GreetingLogic::ValidateInput).next(Executable::Sync(greeting_node_with_sentiment));

    Flow::new(start_node)
}

#[test]
fn test_basic_flow_example_logic() {
    // with a custom name
    {
        let flow = build_flow();
        let mut state = State::new();
        state.insert("user_name".to_string(), NodeValue::Text("Alice".to_string()));

        flow.run(&mut state).unwrap();

        assert_eq!(state.get("user_name"), Some(&NodeValue::Text("Alice".to_string())));
        assert!(text_of(state.get("greeting")).unwrap().contains("Alice"));
        assert_eq!(state.get("sentiment"), Some(&NodeValue::Text("positive".to_string())));
        assert!(text_of(state.get("response")).unwrap().contains("glad"));
    }

    // with the default name
    {
        let flow = build_flow();
        let mut state = State::new();

        flow.run(&mut state).unwrap();

        assert_eq!(state.get("user_name"), Some(&NodeValue::Text("Guest".to_string())));
        assert!(text_of(state.get("greeting")).unwrap().contains("Guest"));
        assert_eq!(state.get("sentiment"), Some(&NodeValue::Text("neutral".to_string())));
        assert!(text_of(state.get("response")).unwrap().contains("explore"));
    }
}
