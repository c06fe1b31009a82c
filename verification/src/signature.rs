use vstd::prelude::*;
use crate::hashing::{FNV_OFFSET, fnv_step, fnv_str_spec, fnv_strs_spec, fnv_str, hex16, hex16_spec};

verus! {

/// Mathematical content of a declared field: its name and description.
pub struct FieldV {
    pub name: Seq<char>,
    pub description: Seq<char>,
}

/// One declared input or output of a unit: a name and a free-form
/// description.
#[derive(Debug, PartialEq, Eq)]
pub struct Field {
    pub name: String,
    pub description: String,
}

impl Field {
    pub open spec fn dv(self) -> FieldV {
        FieldV { name: self.name@, description: self.description@ }
    }

    pub fn new(name: &str, description: &str) -> (r: Field)
        ensures
            r.dv() == (FieldV { name: name@, description: description@ }),
    {
        Field { name: name.to_owned(), description: description.to_owned() }
    }
}

impl Clone for Field {
    fn clone(&self) -> (r: Self)
        ensures
            r.dv() == self.dv(),
    {
        Field { name: self.name.clone(), description: self.description.clone() }
    }
}

/// Mathematical content of a signature.
pub struct SigV {
    pub inputs: Seq<FieldV>,
    pub outputs: Seq<FieldV>,
}

impl SigV {
    /// The input field names, in declaration order.
    pub open spec fn input_names(self) -> Seq<Seq<char>> {
        Seq::new(self.inputs.len(), |i: int| self.inputs[i].name)
    }

    /// The output field names, in declaration order.
    pub open spec fn output_names(self) -> Seq<Seq<char>> {
        Seq::new(self.outputs.len(), |i: int| self.outputs[i].name)
    }
}

/// The structural hash of a signature: a fold over the input names, a
/// section separator, then the output names. It depends on the field names
/// alone, in order; descriptions do not enter into it.
pub open spec fn structural_hash_spec(inputs: Seq<Seq<char>>, outputs: Seq<Seq<char>>) -> Seq<char> {
    hex16_spec(fnv_strs_spec(fnv_step(fnv_strs_spec(FNV_OFFSET, inputs), 0xfe), outputs))
}

/// The declared data contract of a unit: ordered input fields and ordered
/// output fields.
#[derive(Debug, PartialEq, Eq)]
pub struct Signature {
    pub inputs: Vec<Field>,
    pub outputs: Vec<Field>,
}

/// The mathematical content of a sequence of fields.
pub open spec fn fields_dv(s: Seq<Field>) -> Seq<FieldV> {
    Seq::new(s.len(), |i: int| s[i].dv())
}

impl Signature {
    pub open spec fn dv(self) -> SigV {
        SigV { inputs: fields_dv(self.inputs@), outputs: fields_dv(self.outputs@) }
    }

    pub fn new() -> (r: Signature)
        ensures
            r.dv().inputs.len() == 0,
            r.dv().outputs.len() == 0,
    {
        Signature { inputs: Vec::new(), outputs: Vec::new() }
    }

    /// Appends an input field.
    pub fn input(self, name: &str, description: &str) -> (r: Signature)
        ensures
            r.dv().inputs == self.dv().inputs.push(
                FieldV { name: name@, description: description@ },
            ),
            r.dv().outputs == self.dv().outputs,
    {
        let mut s = self;
        s.inputs.push(Field::new(name, description));
        proof {
            assert(fields_dv(s.inputs@) =~= fields_dv(self.inputs@).push(
                FieldV { name: name@, description: description@ },
            ));
            assert(fields_dv(s.outputs@) =~= fields_dv(self.outputs@));
        }
        s
    }

    /// Appends an output field.
    pub fn output(self, name: &str, description: &str) -> (r: Signature)
        ensures
            r.dv().outputs == self.dv().outputs.push(
                FieldV { name: name@, description: description@ },
            ),
            r.dv().inputs == self.dv().inputs,
    {
        let mut s = self;
        s.outputs.push(Field::new(name, description));
        proof {
            assert(fields_dv(s.outputs@) =~= fields_dv(self.outputs@).push(
                FieldV { name: name@, description: description@ },
            ));
            assert(fields_dv(s.inputs@) =~= fields_dv(self.inputs@));
        }
        s
    }

    /// A stable, structural hash of the signature: field names only, in
    /// order; descriptions are excluded, so that rewording a prompt does not
    /// change structural identity.
    pub fn structural_hash(&self) -> (r: String)
        ensures
            r@ == structural_hash_spec(self.dv().input_names(), self.dv().output_names()),
    {
        proof {
            assert(names_of(self.inputs@) =~= self.dv().input_names());
            assert(names_of(self.outputs@) =~= self.dv().output_names());
        }
        let mut h = fold_names(FNV_OFFSET, &self.inputs);
        h = (h ^ 0xfeu64).wrapping_mul(crate::hashing::FNV_PRIME);
        h = fold_names(h, &self.outputs);
        hex16(h)
    }
}

impl Clone for Signature {
    fn clone(&self) -> (r: Self)
        ensures
            r.dv() == self.dv(),
    {
        let r = Signature { inputs: clone_fields(&self.inputs), outputs: clone_fields(&self.outputs) };
        proof {
            assert(r.dv().inputs =~= self.dv().inputs);
            assert(r.dv().outputs =~= self.dv().outputs);
        }
        r
    }
}

fn clone_fields(fs: &Vec<Field>) -> (r: Vec<Field>)
    ensures
        r@.len() == fs@.len(),
        forall|i: int| 0 <= i < fs@.len() ==> r@[i].dv() == fs@[i].dv(),
{
    let mut out: Vec<Field> = Vec::new();
    let mut i: usize = 0;
    while i < fs.len()
        invariant
            i <= fs@.len(),
            out@.len() == i as nat,
            forall|j: int| 0 <= j < i as int ==> out@[j].dv() == fs@[j].dv(),
        decreases fs@.len() - i,
    {
        out.push(fs[i].clone());
        i = i + 1;
    }
    out
}

/// The names of a field sequence, in order.
pub open spec fn names_of(fs: Seq<Field>) -> Seq<Seq<char>> {
    Seq::new(fs.len(), |i: int| fs[i].name@)
}

/// Folds the names of `fs` into the running hash, in declaration order.
fn fold_names(h: u64, fs: &Vec<Field>) -> (r: u64)
    ensures
        r == fnv_strs_spec(h, names_of(fs@)),
{
    let mut acc = h;
    let mut i: usize = 0;
    while i < fs.len()
        invariant
            i <= fs@.len(),
            acc == fnv_strs_spec(h, names_of(fs@).subrange(0, i as int)),
        decreases fs@.len() - i,
    {
        acc = fnv_str(acc, fs[i].name.as_str());
        i = i + 1;
        proof {
            let pre = names_of(fs@).subrange(0, i - 1);
            let cur = names_of(fs@).subrange(0, i as int);
            assert(cur.drop_last() =~= pre);
            assert(cur.last() == fs@[i - 1].name@);
        }
    }
    proof {
        assert(names_of(fs@).subrange(0, fs@.len() as int) =~= names_of(fs@));
    }
    acc
}

/// The descriptions of a field sequence, in order.
pub open spec fn descriptions_of(fs: Seq<FieldV>) -> Seq<Seq<char>> {
    Seq::new(fs.len(), |i: int| fs[i].description)
}

/// The instruction hash of a prompt-driven unit: a fold over the
/// natural-language instruction, then every input field description, then
/// every output field description. Rewording any of them changes it; the
/// field names do not enter into it.
pub open spec fn instruction_hash_spec(instr: Seq<char>, sig: SigV) -> Seq<char> {
    hex16_spec(
        fnv_strs_spec(
            fnv_strs_spec(fnv_str_spec(FNV_OFFSET, instr), descriptions_of(sig.inputs)),
            descriptions_of(sig.outputs),
        ),
    )
}

/// Folds the descriptions of `fs` into the running hash, in order.
fn fold_descriptions(h: u64, fs: &Vec<Field>) -> (r: u64)
    ensures
        r == fnv_strs_spec(h, descriptions_of(fields_dv(fs@))),
{
    let ghost ds = descriptions_of(fields_dv(fs@));
    let mut acc = h;
    let mut i: usize = 0;
    while i < fs.len()
        invariant
            i <= fs@.len(),
            ds == descriptions_of(fields_dv(fs@)),
            ds.len() == fs@.len(),
            forall|j: int| 0 <= j < fs@.len() ==> ds[j] == fs@[j].description@,
            acc == fnv_strs_spec(h, ds.subrange(0, i as int)),
        decreases fs@.len() - i,
    {
        acc = fnv_str(acc, fs[i].description.as_str());
        i = i + 1;
        proof {
            let pre = ds.subrange(0, i - 1);
            let cur = ds.subrange(0, i as int);
            assert(cur.drop_last() =~= pre);
            assert(cur.last() == ds[i - 1]);
        }
    }
    proof {
        assert(ds.subrange(0, fs@.len() as int) =~= ds);
    }
    acc
}

/// Computes the instruction hash of a prompt-driven unit from its
/// instruction and its declared signature.
pub fn instruction_hash(instruction: &str, sig: &Signature) -> (r: String)
    ensures
        r@ == instruction_hash_spec(instruction@, sig.dv()),
{
    let mut h = fnv_str(FNV_OFFSET, instruction);
    h = fold_descriptions(h, &sig.inputs);
    h = fold_descriptions(h, &sig.outputs);
    proof {
        assert(descriptions_of(fields_dv(sig.inputs@)) == descriptions_of(sig.dv().inputs));
        assert(descriptions_of(fields_dv(sig.outputs@)) == descriptions_of(sig.dv().outputs));
    }
    hex16(h)
}

/// Whether the shorthand separator stands at position `i`.
pub open spec fn arrow_at(s: Seq<char>, i: int) -> bool {
    0 <= i && i + 2 <= s.len() && s[i] == '-' && s[i + 1] == '>'
}

/// Whether the shorthand holds exactly one separator.
pub open spec fn unique_arrow(s: Seq<char>) -> bool {
    exists|i: int| #[trigger] arrow_at(s, i) && (forall|j: int| #[trigger] arrow_at(s, j) ==> j == i)
}

/// The position of the one separator.
pub open spec fn arrow_pos(s: Seq<char>) -> int {
    choose|i: int| arrow_at(s, i)
}

/// Whether a character counts as trimmable whitespace.
pub open spec fn is_space(c: char) -> bool {
    c == ' ' || c == '\t' || c == '\n' || c == '\r'
}

/// The text without leading whitespace.
pub open spec fn trim_front(s: Seq<char>) -> Seq<char>
    decreases s.len(),
{
    if s.len() > 0 && is_space(s[0]) {
        trim_front(s.drop_first())
    } else {
        s
    }
}

/// The text without trailing whitespace.
pub open spec fn trim_back(s: Seq<char>) -> Seq<char>
    decreases s.len(),
{
    if s.len() > 0 && is_space(s[s.len() - 1]) {
        trim_back(s.drop_last())
    } else {
        s
    }
}

/// The text without leading or trailing whitespace.
pub open spec fn trim_spec(s: Seq<char>) -> Seq<char> {
    trim_back(trim_front(s))
}

/// Appends a token to the accumulated names if anything of it is left after
/// trimming; an empty segment is dropped.
pub open spec fn push_trimmed(acc: Seq<Seq<char>>, cur: Seq<char>) -> Seq<Seq<char>> {
    if trim_spec(cur).len() > 0 {
        acc.push(trim_spec(cur))
    } else {
        acc
    }
}

/// Walks one side of the shorthand character by character: commas separate
/// tokens, each token is trimmed, and empty segments are dropped.
pub open spec fn fields_rec(s: Seq<char>, cur: Seq<char>, acc: Seq<Seq<char>>) -> Seq<Seq<char>>
    decreases s.len(),
{
    if s.len() == 0 {
        push_trimmed(acc, cur)
    } else if s[0] == ',' {
        fields_rec(s.drop_first(), Seq::empty(), push_trimmed(acc, cur))
    } else {
        fields_rec(s.drop_first(), cur.push(s[0]), acc)
    }
}

/// The field names one side of the shorthand declares.
pub open spec fn fields_of(part: Seq<char>) -> Seq<Seq<char>> {
    fields_rec(part, Seq::empty(), Seq::empty())
}

/// What the shorthand parses to: with exactly one separator, the names on
/// its left and right; otherwise nothing.
pub open spec fn parse_signature_spec(s: Seq<char>) -> Option<(Seq<Seq<char>>, Seq<Seq<char>>)> {
    if unique_arrow(s) {
        let i = arrow_pos(s);
        Some((fields_of(s.subrange(0, i)), fields_of(s.subrange(i + 2, s.len() as int))))
    } else {
        None
    }
}

fn is_space_char(c: char) -> (r: bool)
    ensures
        r == is_space(c),
{
    c == ' ' || c == '\t' || c == '\n' || c == '\r'
}

/// Trims the token spanning `[a0, b0)` of `part` and appends what is left
/// of it, as a field with an empty description; an empty remainder is
/// dropped.
fn push_token(part: &str, a0: usize, b0: usize, acc: &mut Vec<Field>)
    requires
        a0 <= b0 <= part@.len(),
    ensures
        names_of(final(acc)@) =~= push_trimmed(names_of(old(acc)@), part@.subrange(
            a0 as int,
            b0 as int,
        )),
        forall|j: int| 0 <= j < old(acc)@.len() ==> final(acc)@[j] == old(acc)@[j],
        forall|j: int| old(acc)@.len() <= j < final(acc)@.len()
            ==> (#[trigger] final(acc)@[j]).description@ == Seq::<char>::empty(),
    decreases part@.len(),
{
    let ghost tok = part@.subrange(a0 as int, b0 as int);
    let mut a = a0;
    let mut b = b0;
    while a < b && is_space_char(part.get_char(a))
        invariant
            a0 <= a <= b,
            b == b0 <= part@.len(),
            trim_front(tok) == trim_front(part@.subrange(a as int, b0 as int)),
        decreases b - a,
    {
        proof {
            let cur = part@.subrange(a as int, b0 as int);
            assert(cur[0] == part@[a as int]);
            assert(cur.drop_first() =~= part@.subrange(a as int + 1, b0 as int));
        }
        a = a + 1;
    }
    proof {
        let cur = part@.subrange(a as int, b0 as int);
        if cur.len() > 0 {
            assert(cur[0] == part@[a as int]);
        }
        assert(trim_front(tok) == cur);
    }
    while b > a && is_space_char(part.get_char(b - 1))
        invariant
            a <= b <= b0 <= part@.len(),
            trim_back(trim_front(tok)) == trim_back(part@.subrange(a as int, b as int)),
        decreases b,
    {
        proof {
            let cur = part@.subrange(a as int, b as int);
            assert(cur[cur.len() - 1] == part@[b - 1]);
            assert(cur.drop_last() =~= part@.subrange(a as int, b as int - 1));
        }
        b = b - 1;
    }
    proof {
        let cur = part@.subrange(a as int, b as int);
        if cur.len() > 0 {
            assert(cur[cur.len() - 1] == part@[b - 1]);
        }
        assert(trim_spec(tok) == cur);
    }
    if a < b {
        let name = part.substring_char(a, b);
        acc.push(Field::new(name, ""));
        proof {
            reveal_strlit("");
            assert((""@) =~= Seq::<char>::empty());
            assert(names_of(acc@) =~= names_of(old(acc)@).push(trim_spec(tok)));
        }
    } else {
        proof {
            assert(trim_spec(tok).len() == 0);
        }
    }
}

/// Parses one side of the shorthand into fields with empty descriptions.
fn parse_fields(part: &str) -> (r: Vec<Field>)
    ensures
        names_of(r@) =~= fields_of(part@),
        forall|j: int| 0 <= j < r@.len() ==> (#[trigger] r@[j]).description@ == Seq::<
            char,
        >::empty(),
{
    let m = part.unicode_len();
    let mut acc: Vec<Field> = Vec::new();
    let mut ts: usize = 0;
    let mut i: usize = 0;
    proof {
        assert(part@.skip(0) =~= part@);
        assert(part@.subrange(0, 0) =~= Seq::<char>::empty());
        assert(names_of(acc@) =~= Seq::<Seq<char>>::empty());
    }
    while i < m
        invariant
            ts <= i <= m,
            m == part@.len(),
            fields_of(part@) == fields_rec(
                part@.skip(i as int),
                part@.subrange(ts as int, i as int),
                names_of(acc@),
            ),
            forall|j: int| 0 <= j < acc@.len() ==> (#[trigger] acc@[j]).description@ == Seq::<
                char,
            >::empty(),
        decreases m - i,
    {
        let c = part.get_char(i);
        proof {
            let sfx = part@.skip(i as int);
            assert(sfx[0] == part@[i as int]);
            assert(sfx.drop_first() =~= part@.skip(i as int + 1));
        }
        if c == ',' {
            push_token(part, ts, i, &mut acc);
            proof {
                assert(part@.subrange(i as int + 1, i as int + 1) =~= Seq::<char>::empty());
            }
            ts = i + 1;
        } else {
            proof {
                assert(part@.subrange(ts as int, i as int).push(c) =~= part@.subrange(
                    ts as int,
                    i as int + 1,
                ));
            }
        }
        i = i + 1;
    }
    proof {
        assert(part@.skip(m as int) =~= Seq::<char>::empty());
    }
    push_token(part, ts, m, &mut acc);
    acc
}

/// Parses the compact shorthand `"in1, in2 -> out1, out2"`: exactly one
/// separator, comma-separated names trimmed of whitespace, empty segments
/// dropped, all descriptions empty. Anything else is a parse error.
pub fn parse_signature(s: &str) -> (r: Result<Signature, String>)
    ensures
        match r {
            Ok(sig) => parse_signature_spec(s@) matches Some(p) && sig.dv().input_names() == p.0
                && sig.dv().output_names() == p.1 && (forall|j: int|
                0 <= j < sig.dv().inputs.len() ==> (#[trigger] sig.dv().inputs[j]).description
                    == Seq::<char>::empty()) && (forall|j: int|
                0 <= j < sig.dv().outputs.len() ==> (#[trigger] sig.dv().outputs[j]).description
                    == Seq::<char>::empty()),
            Err(m) => parse_signature_spec(s@) is None && m@
                == "Signature must contain exactly one '->'"@,
        },
{
    let n = s.unicode_len();
    let mut count: usize = 0;
    let mut first: usize = 0;
    let ghost mut second: int = 0;
    let mut i: usize = 0;
    while i < n
        invariant
            i <= n,
            n == s@.len(),
            count <= i,
            count >= 1 ==> (first as int) < (i as int),
            count == 0 ==> forall|j: int| 0 <= j < i as int ==> !arrow_at(s@, j),
            count == 1 ==> arrow_at(s@, first as int) && (forall|j: int|
                0 <= j < i as int && j != first as int ==> !arrow_at(s@, j)),
            count >= 2 ==> arrow_at(s@, first as int) && arrow_at(s@, second) && first as int
                != second,
        decreases n - i,
    {
        if i + 1 < n {
            let c0 = s.get_char(i);
            let c1 = s.get_char(i + 1);
            if c0 == '-' && c1 == '>' {
                if count == 0 {
                    first = i;
                } else {
                    proof {
                        second = i as int;
                    }
                }
                count = count + 1;
            } else {
                proof {
                    assert(!arrow_at(s@, i as int));
                }
            }
        } else {
            proof {
                assert(!arrow_at(s@, i as int));
            }
        }
        i = i + 1;
    }
    if count != 1 {
        proof {
            if count == 0 {
                assert forall|j: int| !(#[trigger] arrow_at(s@, j)) by {
                    if 0 <= j < n as int {
                    }
                }
            }
            assert(!unique_arrow(s@));
        }
        return Err("Signature must contain exactly one '->'".to_owned());
    }
    proof {
        assert(unique_arrow(s@));
        assert(arrow_pos(s@) == first as int);
    }
    let left = s.substring_char(0, first);
    let right = s.substring_char(first + 2, n);
    let inputs = parse_fields(left);
    let outputs = parse_fields(right);
    let sig = Signature { inputs, outputs };
    proof {
        assert(sig.dv().input_names() =~= names_of(sig.inputs@));
        assert(sig.dv().output_names() =~= names_of(sig.outputs@));
        assert forall|j: int| 0 <= j < sig.dv().inputs.len()
            implies (#[trigger] sig.dv().inputs[j]).description == Seq::<char>::empty() by {
            assert(sig.dv().inputs[j] == sig.inputs@[j].dv());
        }
        assert forall|j: int| 0 <= j < sig.dv().outputs.len()
            implies (#[trigger] sig.dv().outputs[j]).description == Seq::<char>::empty() by {
            assert(sig.dv().outputs[j] == sig.outputs@[j].dv());
        }
    }
    Ok(sig)
}

/// Structural identity law: the structural hash is a function of the field
/// name sequences alone. Two signatures whose input and output names agree,
/// whatever their descriptions, have the same structural hash.
pub proof fn lemma_structural_hash_names_only(a: Signature, b: Signature)
    requires
        a.dv().input_names() == b.dv().input_names(),
        a.dv().output_names() == b.dv().output_names(),
    ensures
        structural_hash_spec(a.dv().input_names(), a.dv().output_names())
            == structural_hash_spec(b.dv().input_names(), b.dv().output_names()),
{
}

/// Instruction identity law: the instruction hash is a function of the
/// instruction and the field descriptions alone. Two signatures whose
/// descriptions agree, whatever their field names, yield the same
/// instruction hash under the same instruction.
pub proof fn lemma_instruction_hash_material_only(instr: Seq<char>, a: SigV, b: SigV)
    requires
        descriptions_of(a.inputs) == descriptions_of(b.inputs),
        descriptions_of(a.outputs) == descriptions_of(b.outputs),
    ensures
        instruction_hash_spec(instr, a) == instruction_hash_spec(instr, b),
{
}

impl core::str::FromStr for Signature {
    type Err = String;

    fn from_str(s: &str) -> Result<Signature, String> {
        parse_signature(s)
    }
}

} // verus!
