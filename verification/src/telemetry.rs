use vstd::prelude::*;
use crate::strmap::StrMap;
use crate::value::NodeValue;

verus! {

/// One immutable record of a sealed-unit invocation: when it ran, which task
/// it was, the identity hashes under which it ran, what went in and what came
/// out.
#[derive(Debug)]
pub struct TraceEntry {
    pub timestamp: u64,
    pub task_id: String,
    pub signature_hash: String,
    pub instruction_hash: String,
    pub inputs: NodeValue,
    pub outputs: NodeValue,
    pub model_name: String,
    pub training_hash: Option<String>,
    pub fitness_score: Option<i64>,
    pub metadata: StrMap<String>,
}

/// A sink for execution traces. Recording must not fail the workflow; a sink
/// that buffers may make its records durable in `flush`, and a no-op `flush`
/// is valid. Each implementation describes what recording does to it through
/// `record_rel`.
pub trait Telemetry: Sized {
    /// How one recorded entry may change the sink.
    open spec fn record_rel(pre: Self, entry: TraceEntry, post: Self) -> bool {
        true
    }

    /// How flushing may change the sink; a no-op flush is valid.
    open spec fn flush_rel(pre: Self, post: Self) -> bool {
        true
    }

    fn record(&mut self, entry: TraceEntry)
        ensures
            Self::record_rel(*old(self), entry, *final(self)),
    ;

    fn flush(&mut self)
        ensures
            Self::flush_rel(*old(self), *final(self)),
    ;
}

/// An in-memory, append-only trace sink.
pub struct MemoryTelemetry {
    traces: Vec<TraceEntry>,
}

impl MemoryTelemetry {
    pub closed spec fn view(&self) -> Seq<TraceEntry> {
        self.traces@
    }

    pub fn new() -> (r: MemoryTelemetry)
        ensures
            r@ == Seq::<TraceEntry>::empty(),
    {
        let r = MemoryTelemetry { traces: Vec::new() };
        proof {
            assert(r@ =~= Seq::<TraceEntry>::empty());
        }
        r
    }

    /// A snapshot view of everything recorded so far, in order.
    pub fn get_traces(&self) -> (r: &Vec<TraceEntry>)
        ensures
            r@ == self@,
    {
        &self.traces
    }
}

impl Telemetry for MemoryTelemetry {
    open spec fn record_rel(pre: Self, entry: TraceEntry, post: Self) -> bool {
        post@ == pre@.push(entry)
    }

    open spec fn flush_rel(pre: Self, post: Self) -> bool {
        post@ == pre@
    }

    fn record(&mut self, entry: TraceEntry) {
        self.traces.push(entry);
    }

    fn flush(&mut self) {
    }
}

/// A sink that discards every record; used where no telemetry is attached.
pub struct NoTelemetry;

impl Telemetry for NoTelemetry {
    open spec fn record_rel(pre: Self, entry: TraceEntry, post: Self) -> bool {
        post == pre
    }

    open spec fn flush_rel(pre: Self, post: Self) -> bool {
        post == pre
    }

    fn record(&mut self, _entry: TraceEntry) {
    }

    fn flush(&mut self) {
    }
}

} // verus!
