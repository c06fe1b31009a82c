use vstd::prelude::*;
use crate::flow::Flow;
use crate::node::{
    Edges, Executable, NodeLogic, SealCapV, edges_size, exe_edges, exe_size, lemma_edges_value_size,
    lemma_exe_edges, seal_info_view,
};
use crate::signature::FieldV;

verus! {

/// The availability of a key in the shared state on the paths reaching a
/// unit.
#[derive(Debug, Clone, Copy, PartialEq, Eq)]
pub enum KeyAvailability {
    /// The key is present on every path.
    Always,
    /// The key is present on some paths but not all.
    Sometimes,
    /// The key is present on no path.
    Never,
}

/// An issue found while validating a workflow's data flow.
#[derive(Debug)]
pub enum ValidationIssue {
    /// A required input key is guaranteed to be missing.
    Error(String),
    /// A required input key might be missing on some paths.
    Warning(String),
}

/// The text a validation issue carries.
pub open spec fn issue_msg(i: ValidationIssue) -> Seq<char> {
    match i {
        ValidationIssue::Error(m) => m@,
        ValidationIssue::Warning(m) => m@,
    }
}

/// The texts of a sequence of issues, in order.
pub open spec fn issue_msgs(s: Seq<ValidationIssue>) -> Seq<Seq<char>> {
    Seq::new(s.len(), |i: int| issue_msg(s[i]))
}

/// The rendered line of one issue: its kind, then its text.
pub open spec fn summary_line_of(i: ValidationIssue) -> Seq<char> {
    match i {
        ValidationIssue::Error(m) => "Error: "@ + m@,
        ValidationIssue::Warning(m) => "Warning: "@ + m@,
    }
}

/// The result of a validation pass: an ordered list of issues.
#[derive(Debug)]
pub struct ValidationResult {
    pub issues: Vec<ValidationIssue>,
}

impl ValidationResult {
    pub fn new() -> (r: ValidationResult)
        ensures
            r.issues@.len() == 0,
    {
        ValidationResult { issues: Vec::new() }
    }

    pub fn add_error(&mut self, msg: String)
        ensures
            final(self).issues@ == old(self).issues@.push(ValidationIssue::Error(msg)),
    {
        self.issues.push(ValidationIssue::Error(msg));
    }

    pub fn add_warning(&mut self, msg: String)
        ensures
            final(self).issues@ == old(self).issues@.push(ValidationIssue::Warning(msg)),
    {
        self.issues.push(ValidationIssue::Warning(msg));
    }

    /// Whether the workflow is safe to run: no issue is an error.
    pub fn is_safe(&self) -> (r: bool)
        ensures
            r == (forall|j: int| 0 <= j < self.issues@.len() ==> !((#[trigger] self.issues@[j])
                is Error)),
    {
        let mut i: usize = 0;
        while i < self.issues.len()
            invariant
                i <= self.issues@.len(),
                forall|j: int| 0 <= j < i as int ==> !((#[trigger] self.issues@[j]) is Error),
            decreases self.issues@.len() - i,
        {
            match &self.issues[i] {
                ValidationIssue::Error(_) => {
                    return false;
                },
                ValidationIssue::Warning(_) => {},
            }
            i = i + 1;
        }
        true
    }

    /// Whether any issue is a warning.
    pub fn has_warnings(&self) -> (r: bool)
        ensures
            r == (exists|j: int| 0 <= j < self.issues@.len() && (#[trigger] self.issues@[j])
                is Warning),
    {
        let mut i: usize = 0;
        while i < self.issues.len()
            invariant
                i <= self.issues@.len(),
                forall|j: int| 0 <= j < i as int ==> !((#[trigger] self.issues@[j]) is Warning),
            decreases self.issues@.len() - i,
        {
            match &self.issues[i] {
                ValidationIssue::Warning(_) => {
                    proof {
                        assert((self.issues@[i as int]) is Warning);
                    }
                    return true;
                },
                ValidationIssue::Error(_) => {},
            }
            i = i + 1;
        }
        false
    }

    /// A readable rendering of the result: one line per issue, its kind then
    /// its text; a passed validation renders as a single line saying so.
    pub fn summary_lines(&self) -> (r: Vec<String>)
        ensures
            self.issues@.len() == 0 ==> r@.len() == 1 && r@[0]@
                == "Workflow validation passed: all data-flow contracts are satisfied."@,
            self.issues@.len() > 0 ==> r@.len() == self.issues@.len() && (forall|j: int|
                0 <= j < self.issues@.len() ==> (#[trigger] r@[j])@ == summary_line_of(
                    self.issues@[j],
                )),
    {
        let mut out: Vec<String> = Vec::new();
        if self.issues.len() == 0 {
            out.push(
                "Workflow validation passed: all data-flow contracts are satisfied.".to_owned(),
            );
            return out;
        }
        let mut i: usize = 0;
        while i < self.issues.len()
            invariant
                i <= self.issues@.len(),
                out@.len() == i as nat,
                forall|j: int| 0 <= j < i as int ==> (#[trigger] out@[j])@ == summary_line_of(
                    self.issues@[j],
                ),
            decreases self.issues@.len() - i,
        {
            let line = match &self.issues[i] {
                ValidationIssue::Error(m) => "Error: ".to_owned().concat(m.as_str()),
                ValidationIssue::Warning(m) => "Warning: ".to_owned().concat(m.as_str()),
            };
            out.push(line);
            i = i + 1;
        }
        out
    }
}

/// The set of key texts a vector of strings holds.
pub open spec fn strs_set(s: Seq<String>) -> Set<Seq<char>> {
    Set::new(|k: Seq<char>| exists|i: int| 0 <= i < s.len() && s[i]@ == k)
}

/// The message recorded when a required input is not guaranteed present.
pub open spec fn missing_msg(task: Seq<char>, key: Seq<char>) -> Seq<char> {
    "Node '"@ + task + "' requires input '"@ + key
        + "', which is not guaranteed to be available"@
}

/// The messages for a unit's declared inputs that the available-key set does
/// not cover, in declaration order.
pub open spec fn missing_inputs_spec(
    task: Seq<char>,
    inputs: Seq<FieldV>,
    avail: Set<Seq<char>>,
) -> Seq<Seq<char>>
    decreases inputs.len(),
{
    if inputs.len() == 0 {
        Seq::empty()
    } else {
        let rest = missing_inputs_spec(task, inputs.drop_last(), avail);
        if avail.contains(inputs[inputs.len() - 1].name) {
            rest
        } else {
            rest.push(missing_msg(task, inputs[inputs.len() - 1].name))
        }
    }
}

/// The available-key set after a unit ran: its declared outputs are added.
pub open spec fn add_outputs_spec(avail: Set<Seq<char>>, outputs: Seq<FieldV>) -> Set<Seq<char>>
    decreases outputs.len(),
{
    if outputs.len() == 0 {
        avail
    } else {
        add_outputs_spec(avail, outputs.drop_last()).insert(outputs[outputs.len() - 1].name)
    }
}

/// The identity a unit presents to validation: a behaviour's declared
/// sealing capability, or, for a sealed unit, the snapshot it carries.
pub open spec fn unit_cap<L: NodeLogic>(e: Executable<L>) -> Option<SealCapV>
    decreases e,
{
    match e {
        Executable::Sync(n) => n.behaviour.seal_cap(),
        Executable::Async(n) => n.behaviour.seal_cap(),
        Executable::Sealed(s) => Some(
            SealCapV { signature: s.signature.dv(), task_id: s.task_id@ },
        ),
    }
}

/// The validation walk from one unit: check the unit's declared inputs
/// against the keys available on this path, add its declared outputs, then
/// walk each successor with a branch-local copy of the availability; a task
/// already visited is not re-checked. Yields the error messages in
/// encounter order and the visited set afterwards.
pub open spec fn walk_spec<L: NodeLogic>(
    e: Executable<L>,
    avail: Set<Seq<char>>,
    visited: Set<Seq<char>>,
) -> (Seq<Seq<char>>, Set<Seq<char>>)
    decreases exe_size(e), 0int,
    via walk_spec_dec::<L>
{
    match unit_cap(e) {
        Some(cap) => {
            if visited.contains(cap.task_id) {
                (Seq::empty(), visited)
            } else {
                let msgs = missing_inputs_spec(cap.task_id, cap.signature.inputs, avail);
                let avail2 = add_outputs_spec(avail, cap.signature.outputs);
                let rec = walk_succs_spec(exe_edges(e), 0, avail2, visited.insert(cap.task_id));
                (msgs + rec.0, rec.1)
            }
        },
        None => walk_succs_spec(exe_edges(e), 0, avail, visited),
    }
}

/// The validation walk over a unit's successor edges from position `i` on,
/// each successor walked with the same branch-local availability, the
/// visited set threading through.
pub open spec fn walk_succs_spec<L: NodeLogic>(
    ed: Edges<L>,
    i: int,
    avail: Set<Seq<char>>,
    visited: Set<Seq<char>>,
) -> (Seq<Seq<char>>, Set<Seq<char>>)
    decreases edges_size(ed), ed.key_seq().len() - i + 1,
    via walk_succs_spec_dec::<L>
{
    if 0 <= i < ed.key_seq().len() {
        let succ = ed@[ed.key_seq()[i]];
        let first = walk_spec(succ, avail, visited);
        let rest = walk_succs_spec(ed, i + 1, avail, first.1);
        (first.0 + rest.0, rest.1)
    } else {
        (Seq::empty(), visited)
    }
}

#[via_fn]
proof fn walk_spec_dec<L: NodeLogic>(e: Executable<L>, avail: Set<Seq<char>>, visited: Set<
    Seq<char>,
>) {
    lemma_exe_edges(e);
}

#[via_fn]
proof fn walk_succs_spec_dec<L: NodeLogic>(
    ed: Edges<L>,
    i: int,
    avail: Set<Seq<char>>,
    visited: Set<Seq<char>>,
) {
    if 0 <= i < ed.key_seq().len() {
        crate::node::lemma_edges_key_contains(ed, i);
        lemma_edges_value_size(ed, ed.key_seq()[i]);
    }
}

/// Appending a string to a vector adds exactly its text to the key set.
proof fn lemma_strs_set_push(s: Seq<String>, x: String)
    ensures
        strs_set(s.push(x)) =~= strs_set(s).insert(x@),
{
    assert forall|k: Seq<char>| strs_set(s.push(x)).contains(k)
        implies strs_set(s).insert(x@).contains(k) by {
        let j = choose|j: int| 0 <= j < s.push(x).len() && s.push(x)[j]@ == k;
        if j < s.len() {
            assert(s[j]@ == k);
        }
    }
    assert forall|k: Seq<char>| strs_set(s).insert(x@).contains(k)
        implies strs_set(s.push(x)).contains(k) by {
        if k == x@ {
            assert(s.push(x)[s.len() as int]@ == k);
        } else {
            let j = choose|j: int| 0 <= j < s.len() && s[j]@ == k;
            assert(s.push(x)[j]@ == k);
        }
    }
}

/// Appending an issue appends exactly its text.
proof fn lemma_issue_msgs_push(s: Seq<ValidationIssue>, x: ValidationIssue)
    ensures
        issue_msgs(s.push(x)) =~= issue_msgs(s).push(issue_msg(x)),
{
}

/// Whether a vector of strings holds the given text.
fn vec_contains_str(v: &Vec<String>, s: &str) -> (r: bool)
    ensures
        r == strs_set(v@).contains(s@),
{
    let mut i: usize = 0;
    while i < v.len()
        invariant
            i <= v@.len(),
            forall|j: int| 0 <= j < i as int ==> v@[j]@ != s@,
        decreases v@.len() - i,
    {
        if crate::strmap::str_eq(s, &v[i]) {
            proof {
                let w: int = i as int;
                assert(0 <= w && w < v@.len() && v@[w]@ == s@);
            }
            return true;
        }
        i = i + 1;
    }
    proof {
        if strs_set(v@).contains(s@) {
            let j = choose|j: int| 0 <= j < v@.len() && v@[j]@ == s@;
            assert(false);
        }
    }
    false
}

/// Checks one unit's declared inputs, records the missing ones, and returns
/// the branch availability extended by the declared outputs.
fn check_unit_cap(
    task_id: &String,
    inputs: &Vec<crate::signature::Field>,
    outputs: &Vec<crate::signature::Field>,
    avail: &Vec<String>,
    result: &mut ValidationResult,
) -> (r: Vec<String>)
    ensures
        issue_msgs(final(result).issues@) =~= issue_msgs(old(result).issues@)
            + missing_inputs_spec(
            task_id@,
            crate::signature::fields_dv(inputs@),
            strs_set(avail@),
        ),
        forall|j: int| 0 <= j < old(result).issues@.len() ==> final(result).issues@[j] == old(
            result,
        ).issues@[j],
        forall|j: int| old(result).issues@.len() <= j < final(result).issues@.len()
            ==> (#[trigger] final(result).issues@[j]) is Error,
        strs_set(r@) == add_outputs_spec(
            strs_set(avail@),
            crate::signature::fields_dv(outputs@),
        ),
{
    let ghost fin = crate::signature::fields_dv(inputs@);
    let ghost av = strs_set(avail@);
    let ghost base = result.issues@;
    let mut i: usize = 0;
    while i < inputs.len()
        invariant
            i <= inputs@.len(),
            fin == crate::signature::fields_dv(inputs@),
            fin.len() == inputs@.len(),
            forall|j: int| 0 <= j < fin.len() ==> #[trigger] fin[j] == inputs@[j].dv(),
            av == strs_set(avail@),
            issue_msgs(result.issues@) =~= issue_msgs(base) + missing_inputs_spec(
                task_id@,
                fin.subrange(0, i as int),
                av,
            ),
            forall|j: int| 0 <= j < base.len() ==> result.issues@[j] == base[j],
            forall|j: int| base.len() <= j < result.issues@.len()
                ==> (#[trigger] result.issues@[j]) is Error,
        decreases inputs@.len() - i,
    {
        let name = &inputs[i].name;
        proof {
            assert(fin[i as int] == inputs@[i as int].dv());
        }
        let ghost prev = result.issues@;
        let absent = !vec_contains_str(avail, name.as_str());
        if absent {
            let mut msg: String = "Node '".to_owned();
            msg.append(task_id.as_str());
            msg.append("' requires input '");
            msg.append(name.as_str());
            msg.append("', which is not guaranteed to be available");
            proof {
                assert(msg@ =~= missing_msg(task_id@, name@));
            }
            result.add_error(msg);
            proof {
                lemma_issue_msgs_push(prev, result.issues@.last());
            }
        }
        proof {
            let sub1 = fin.subrange(0, i as int + 1);
            assert(sub1.drop_last() =~= fin.subrange(0, i as int));
            assert(sub1[sub1.len() - 1] == fin[i as int]);
            if absent {
                assert(!av.contains(fin[i as int].name));
                assert(missing_inputs_spec(task_id@, sub1, av) =~= missing_inputs_spec(
                    task_id@,
                    fin.subrange(0, i as int),
                    av,
                ).push(missing_msg(task_id@, fin[i as int].name)));
            } else {
                assert(av.contains(fin[i as int].name));
            }
            assert(issue_msgs(result.issues@) =~= issue_msgs(base) + missing_inputs_spec(
                task_id@,
                sub1,
                av,
            ));
        }
        i = i + 1;
    }
    proof {
        assert(fin.subrange(0, inputs@.len() as int) =~= fin);
    }
    let ghost fout = crate::signature::fields_dv(outputs@);
    let mut avail2: Vec<String> = Vec::new();
    let mut k: usize = 0;
    while k < avail.len()
        invariant
            k <= avail@.len(),
            avail2@.len() == k as nat,
            forall|j: int| 0 <= j < k as int ==> avail2@[j]@ == avail@[j]@,
        decreases avail@.len() - k,
    {
        avail2.push(avail[k].clone());
        k = k + 1;
    }
    proof {
        assert(strs_set(avail2@) =~= strs_set(avail@));
        assert(strs_set(avail2@) =~= add_outputs_spec(av, fout.subrange(0, 0)));
    }
    let mut m: usize = 0;
    while m < outputs.len()
        invariant
            m <= outputs@.len(),
            fout == crate::signature::fields_dv(outputs@),
            fout.len() == outputs@.len(),
            forall|j: int| 0 <= j < fout.len() ==> #[trigger] fout[j] == outputs@[j].dv(),
            av == strs_set(avail@),
            strs_set(avail2@) == add_outputs_spec(av, fout.subrange(0, m as int)),
        decreases outputs@.len() - m,
    {
        let ghost prev_avail = avail2@;
        avail2.push(outputs[m].name.clone());
        proof {
            assert(fout[m as int] == outputs@[m as int].dv());
            lemma_strs_set_push(prev_avail, avail2@.last());
            let sub1 = fout.subrange(0, m as int + 1);
            assert(sub1.drop_last() =~= fout.subrange(0, m as int));
            assert(sub1[sub1.len() - 1] == fout[m as int]);
            assert(strs_set(avail2@) =~= add_outputs_spec(av, sub1));
        }
        m = m + 1;
    }
    proof {
        assert(fout.subrange(0, outputs@.len() as int) =~= fout);
    }
    avail2
}

/// Duplicates a vector of strings, keeping the texts.
fn clone_strs(v: &Vec<String>) -> (r: Vec<String>)
    ensures
        r@.len() == v@.len(),
        forall|j: int| 0 <= j < v@.len() ==> r@[j]@ == v@[j]@,
        strs_set(r@) == strs_set(v@),
{
    let mut out: Vec<String> = Vec::new();
    let mut i: usize = 0;
    while i < v.len()
        invariant
            i <= v@.len(),
            out@.len() == i as nat,
            forall|j: int| 0 <= j < i as int ==> out@[j]@ == v@[j]@,
        decreases v@.len() - i,
    {
        out.push(v[i].clone());
        i = i + 1;
    }
    proof {
        assert(strs_set(out@) =~= strs_set(v@));
    }
    out
}

/// Walks one unit of the graph, as `walk_spec` says.
fn walk_unit<L: NodeLogic>(
    e: &Executable<L>,
    avail: &Vec<String>,
    visited: &mut Vec<String>,
    result: &mut ValidationResult,
)
    ensures
        ({
            let w = walk_spec(*e, strs_set(avail@), strs_set(old(visited)@));
            issue_msgs(final(result).issues@) =~= issue_msgs(old(result).issues@) + w.0
                && strs_set(final(visited)@) == w.1
        }),
        forall|j: int| 0 <= j < old(result).issues@.len() ==> final(result).issues@[j] == old(
            result,
        ).issues@[j],
        forall|j: int| old(result).issues@.len() <= j < final(result).issues@.len()
            ==> (#[trigger] final(result).issues@[j]) is Error,
    decreases exe_size(*e),
{
    let ghost av = strs_set(avail@);
    let ghost vis0 = strs_set(visited@);
    let ghost base = result.issues@;
    let info_opt: Option<crate::node::SealInfo> = match e {
        Executable::Sync(n) => n.behaviour.seal_info(),
        Executable::Async(n) => n.behaviour.seal_info(),
        Executable::Sealed(s) => Some(
            crate::node::SealInfo {
                signature: s.signature.clone(),
                task_id: s.task_id.clone(),
            },
        ),
    };
    proof {
        assert(seal_info_view(info_opt) == unit_cap(*e));
    }
    let avail2: Vec<String> = match &info_opt {
        Some(info) => {
            if vec_contains_str(visited, info.task_id.as_str()) {
                proof {
                    assert(issue_msgs(result.issues@) =~= issue_msgs(base)
                        + Seq::<Seq<char>>::empty());
                }
                return ;
            }
            let new_avail = check_unit_cap(
                &info.task_id,
                &info.signature.inputs,
                &info.signature.outputs,
                avail,
                result,
            );
            let ghost prev_vis = visited@;
            visited.push(info.task_id.clone());
            proof {
                lemma_strs_set_push(prev_vis, visited@.last());
                assert(strs_set(visited@) =~= vis0.insert(info.task_id@));
            }
            new_avail
        },
        None => clone_strs(avail),
    };
    let ghost av2 = strs_set(avail2@);
    let ghost vis1 = strs_set(visited@);
    let ghost cap_msgs = issue_msgs(result.issues@).skip(issue_msgs(base).len() as int);
    let ghost base1 = result.issues@;
    let ed = e.successors();
    let n = ed.num_entries();
    let mut i: usize = 0;
    proof {
        assert(issue_msgs(base1) =~= issue_msgs(base) + cap_msgs);
    }
    while i < n
        invariant
            i <= n,
            *ed == exe_edges(*e),
            n == ed.key_seq().len(),
            edges_size(*ed) < exe_size(*e),
            av2 == strs_set(avail2@),
            base.len() <= base1.len(),
            forall|j: int| 0 <= j < base.len() ==> base1[j] == base[j],
            forall|j: int| base.len() <= j < base1.len() ==> (#[trigger] base1[j]) is Error,
            base1.len() <= result.issues@.len(),
            forall|j: int| 0 <= j < base1.len() ==> result.issues@[j] == base1[j],
            forall|j: int| base1.len() <= j < result.issues@.len()
                ==> (#[trigger] result.issues@[j]) is Error,
            ({
                let whole = walk_succs_spec(*ed, 0, av2, vis1);
                let sfx = walk_succs_spec(*ed, i as int, av2, strs_set(visited@));
                issue_msgs(result.issues@) + sfx.0 =~= issue_msgs(base1) + whole.0 && sfx.1
                    == whole.1
            }),
        decreases n - i,
    {
        let succ = ed.value_at(i);
        proof {
            crate::node::lemma_edges_key_contains(*ed, i as int);
            lemma_edges_value_size(*ed, ed.key_seq()[i as int]);
            assert(exe_size(*succ) < exe_size(*e));
        }
        let ghost before_call = result.issues@;
        walk_unit(succ, &avail2, visited, result);
        proof {
            assert(before_call.len() <= result.issues@.len());
            assert forall|j: int| 0 <= j < base1.len()
                implies result.issues@[j] == base1[j] by {
                assert(j < before_call.len());
                assert(result.issues@[j] == before_call[j]);
            }
            assert forall|j: int| base1.len() <= j < result.issues@.len()
                implies (#[trigger] result.issues@[j]) is Error by {
                if j < before_call.len() {
                    assert(result.issues@[j] == before_call[j]);
                }
            }
        }
        i = i + 1;
    }
    proof {
        let whole = walk_succs_spec(*ed, 0, av2, vis1);
        let sfx = walk_succs_spec(*ed, n as int, av2, strs_set(visited@));
        assert(sfx.0 =~= Seq::<Seq<char>>::empty());
        assert(issue_msgs(result.issues@) =~= issue_msgs(base1) + whole.0);
        assert(issue_msgs(result.issues@) =~= issue_msgs(base) + (cap_msgs + whole.0));
        let w = walk_spec(*e, av, vis0);
        match info_opt {
            Some(info) => {
                assert(w.0 =~= cap_msgs + whole.0);
            },
            None => {
                assert(w.0 =~= cap_msgs + whole.0);
            },
        }
        assert forall|j: int| base.len() <= j < result.issues@.len()
            implies (#[trigger] result.issues@[j]) is Error by {
            if j < base1.len() {
                assert(result.issues@[j] == base1[j]);
            }
        }
    }
}

impl<L: NodeLogic> Flow<L> {
    /// Statically walks the graph from the start unit, carrying per path the
    /// set of shared-state keys guaranteed present, and records an error for
    /// every declared input that is not; sibling branches do not see each
    /// other's outputs, and a task already visited is not re-checked.
    pub fn validate(&self, initial_keys: Vec<String>) -> (r: ValidationResult)
        ensures
            issue_msgs(r.issues@) == walk_spec(
                self.start,
                strs_set(initial_keys@),
                Set::<Seq<char>>::empty(),
            ).0,
            forall|j: int| 0 <= j < r.issues@.len() ==> (#[trigger] r.issues@[j]) is Error,
    {
        let mut result = ValidationResult::new();
        let mut visited: Vec<String> = Vec::new();
        proof {
            assert(strs_set(visited@) =~= Set::<Seq<char>>::empty());
            assert(issue_msgs(result.issues@) =~= Seq::<Seq<char>>::empty());
        }
        walk_unit(&self.start, &initial_keys, &mut visited, &mut result);
        proof {
            assert(issue_msgs(result.issues@) =~= walk_spec(
                self.start,
                strs_set(initial_keys@),
                Set::<Seq<char>>::empty(),
            ).0);
        }
        result
    }
}

} // verus!
