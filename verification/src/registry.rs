use vstd::prelude::*;
use crate::strmap::{StrMap, str_eq};

verus! {

/// A record of an optimization run for one task: the identity it ran under
/// and what came out of it. The fitness score is carried in fixed-point
/// integer units so that records are totally comparable.
#[derive(Debug)]
pub struct OptimizationRecord {
    pub task_id: String,
    pub signature_hash: String,
    pub instruction_hash: String,
    pub training_hash: Option<String>,
    pub optimization_config_hash: Option<String>,
    pub fitness_score: Option<i64>,
    pub weights_path: Option<String>,
    pub created_at: u64,
    pub updated_at: u64,
}

/// Whether a record carries the given identity pair.
pub open spec fn record_matches(r: OptimizationRecord, sig: Seq<char>, instr: Seq<char>) -> bool {
    r.signature_hash@ == sig && r.instruction_hash@ == instr
}

/// The ordering on fitness scores: an absent score ranks below every present
/// one.
pub open spec fn fitness_le(a: Option<i64>, b: Option<i64>) -> bool {
    match a {
        None => true,
        Some(x) => match b {
            None => false,
            Some(y) => x <= y,
        },
    }
}

fn fitness_le_exec(a: &Option<i64>, b: &Option<i64>) -> (r: bool)
    ensures
        r == fitness_le(*a, *b),
{
    match a {
        None => true,
        Some(x) => match b {
            None => false,
            Some(y) => *x <= *y,
        },
    }
}

/// A registry of optimization records, keyed by task identifier.
pub struct OptimizationRegistry {
    records: StrMap<OptimizationRecord>,
}

impl OptimizationRegistry {
    pub closed spec fn view(&self) -> Map<Seq<char>, OptimizationRecord> {
        self.records@
    }

    pub fn new() -> (r: OptimizationRegistry)
        ensures
            r@ == Map::<Seq<char>, OptimizationRecord>::empty(),
    {
        OptimizationRegistry { records: StrMap::new() }
    }

    /// Stores the record under its task identifier; a record already stored
    /// under the same task is replaced.
    pub fn register(&mut self, record: OptimizationRecord)
        ensures
            final(self)@ == old(self)@.insert(record.task_id@, record),
    {
        let key = record.task_id.clone();
        self.records.insert(key, record);
    }

    pub fn get_by_task_id(&self, task_id: &str) -> (r: Option<&OptimizationRecord>)
        ensures
            match r {
                Some(rec) => self@.contains_key(task_id@) && *rec == self@[task_id@],
                None => !self@.contains_key(task_id@),
            },
    {
        self.records.get(task_id)
    }

    /// Finds a stored record carrying the given identity pair whose fitness
    /// score is highest; none if no record carries that identity.
    pub fn find_best_match(&self, signature_hash: &str, instruction_hash: &str) -> (r: Option<
        &OptimizationRecord,
    >)
        ensures
            match r {
                Some(rec) => {
                    &&& record_matches(*rec, signature_hash@, instruction_hash@)
                    &&& exists|k: Seq<char>| #![trigger self@.contains_key(k)]
                        self@.contains_key(k) && self@[k] == *rec
                    &&& forall|k: Seq<char>| self@.contains_key(k) && record_matches(
                        #[trigger] self@[k],
                        signature_hash@,
                        instruction_hash@,
                    ) ==> fitness_le(self@[k].fitness_score, rec.fitness_score)
                },
                None => forall|k: Seq<char>| self@.contains_key(k) ==> !record_matches(
                    #[trigger] self@[k],
                    signature_hash@,
                    instruction_hash@,
                ),
            },
    {
        let n = self.records.num_entries();
        let ghost ks = self.records.key_seq();
        let mut best: Option<&OptimizationRecord> = None;
        let mut i: usize = 0;
        while i < n
            invariant
                i <= n,
                n == ks.len(),
                ks == self.records.key_seq(),
                forall|a: int, b: int| 0 <= a < b < ks.len() ==> ks[a] != ks[b],
                forall|a: int| 0 <= a < ks.len()
                    ==> self.records@.contains_key(#[trigger] ks[a]),
                forall|k: Seq<char>| self.records@.contains_key(k) ==> ks.contains(k),
                match best {
                    Some(rec) => {
                        &&& record_matches(*rec, signature_hash@, instruction_hash@)
                        &&& exists|k: Seq<char>| #![trigger self.records@.contains_key(k)]
                            self.records@.contains_key(k) && self.records@[k] == *rec
                        &&& forall|a: int| 0 <= a < i as int && record_matches(
                            #[trigger] self.records@[ks[a]],
                            signature_hash@,
                            instruction_hash@,
                        ) ==> fitness_le(self.records@[ks[a]].fitness_score, rec.fitness_score)
                    },
                    None => forall|a: int| 0 <= a < i as int ==> !record_matches(
                        #[trigger] self.records@[ks[a]],
                        signature_hash@,
                        instruction_hash@,
                    ),
                },
            decreases n - i,
        {
            let candidate = self.records.value_at(i);
            let sig_ok = str_eq(signature_hash, &candidate.signature_hash);
            let instr_ok = str_eq(instruction_hash, &candidate.instruction_hash);
            if sig_ok && instr_ok {
                let replace = match best {
                    None => true,
                    Some(cur) => fitness_le_exec(&cur.fitness_score, &candidate.fitness_score),
                };
                if replace {
                    best = Some(candidate);
                }
            }
            i = i + 1;
        }
        proof {
            match best {
                Some(rec) => {
                    assert forall|k: Seq<char>| self@.contains_key(k) && record_matches(
                        self@[k],
                        signature_hash@,
                        instruction_hash@,
                    ) implies fitness_le(self@[k].fitness_score, rec.fitness_score) by {
                        assert(ks.contains(k));
                        let a = choose|a: int| 0 <= a < ks.len() && ks[a] == k;
                        assert(self.records@[ks[a]] == self@[k]);
                    }
                },
                None => {
                    assert forall|k: Seq<char>| self@.contains_key(k) implies !record_matches(
                        self@[k],
                        signature_hash@,
                        instruction_hash@,
                    ) by {
                        assert(ks.contains(k));
                        let a = choose|a: int| 0 <= a < ks.len() && ks[a] == k;
                        assert(self.records@[ks[a]] == self@[k]);
                    }
                },
            }
        }
        best
    }
}

} // verus!
