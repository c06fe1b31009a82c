//! A workflow orchestration engine: a graph of computation units that
//! exchange data through a shared key-value state, with conditional
//! branching, batch fan-out, sealing with identity hashes, static data-flow
//! validation and telemetry.

pub mod batch;
pub mod flow;
pub mod hashing;
pub mod llm;
pub mod node;
pub mod outside;
pub mod registry;
pub mod sealed;
pub mod semantic;
pub mod signature;
pub mod state;
pub mod strmap;
pub mod telemetry;
pub mod validation;
pub mod value;

pub use batch::{
    AsyncBatchLogic, AsyncParallelBatchLogic, BatchFlow, BatchLogic, new_async_batch_node,
    new_async_parallel_batch_node, new_batch_node,
};
pub use flow::{AsyncFlow, DispatchOutcome, Flow, FlowError};
pub use node::{AsyncNode, Edges, Executable, Node, NodeCore, NodeLogic, PromptInfo, SealInfo};
pub use registry::{OptimizationRecord, OptimizationRegistry};
pub use sealed::{Promptable, Sealable, SealError, SealedNode};
pub use semantic::{SemanticLLMLogic, SemanticNodeBuilder};
pub use signature::{Field, Signature};
pub use state::State;
pub use strmap::StrMap;
pub use telemetry::{MemoryTelemetry, Telemetry, TraceEntry};
pub use validation::{KeyAvailability, ValidationIssue, ValidationResult};
pub use value::NodeValue;
