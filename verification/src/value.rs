use vstd::prelude::*;

verus! {

/// Mathematical model of a generic value: the shape every contract in this
/// crate speaks about. Text is a sequence of characters, lists are sequences,
/// and objects are ordered key/value pairs.
pub enum Val {
    Null,
    Bool(bool),
    Int(int),
    Text(Seq<char>),
    List(Seq<Val>),
    Object(Seq<(Seq<char>, Val)>),
}

impl Val {
    /// Look up the first binding of `key` in an object's entry sequence.
    pub open spec fn object_get(entries: Seq<(Seq<char>, Val)>, key: Seq<char>) -> Option<Val>
        decreases entries.len(),
    {
        if entries.len() == 0 {
            None
        } else if entries.first().0 == key {
            Some(entries.first().1)
        } else {
            Self::object_get(entries.drop_first(), key)
        }
    }
}

/// A dynamically-typed, tree-shaped value used for unit inputs, outputs and
/// the shared state: null, boolean, integer, text, array or object.
#[derive(Debug, PartialEq, Eq)]
pub enum NodeValue {
    Null,
    Bool(bool),
    Int(i64),
    Text(String),
    List(Vec<NodeValue>),
    Object(Vec<(String, NodeValue)>),
}

/// The mathematical values a sequence of executable values stands for.
pub open spec fn dv_seq(s: Seq<NodeValue>) -> Seq<Val>
    decreases s,
{
    if s.len() == 0 {
        Seq::empty()
    } else {
        dv_seq(s.drop_last()).push(s[s.len() - 1].dv())
    }
}

/// The mathematical entries a sequence of executable object entries stands for.
pub open spec fn dv_entries(s: Seq<(String, NodeValue)>) -> Seq<(Seq<char>, Val)>
    decreases s,
{
    if s.len() == 0 {
        Seq::empty()
    } else {
        dv_entries(s.drop_last()).push((s[s.len() - 1].0@, s[s.len() - 1].1.dv()))
    }
}

impl NodeValue {
    /// The mathematical value this executable value stands for.
    pub open spec fn dv(self) -> Val
        decreases self,
    {
        match self {
            NodeValue::Null => Val::Null,
            NodeValue::Bool(b) => Val::Bool(b),
            NodeValue::Int(i) => Val::Int(i as int),
            NodeValue::Text(s) => Val::Text(s@),
            NodeValue::List(items) => Val::List(dv_seq(items@)),
            NodeValue::Object(entries) => Val::Object(dv_entries(entries@)),
        }
    }

    pub fn is_null(&self) -> (r: bool)
        ensures
            r == (self.dv() == Val::Null),
    {
        match self {
            NodeValue::Null => true,
            NodeValue::Bool(_) => false,
            NodeValue::Int(_) => false,
            NodeValue::Text(_) => false,
            NodeValue::List(_) => false,
            NodeValue::Object(_) => false,
        }
    }

    pub fn is_list(&self) -> (r: bool)
        ensures
            r == (self.dv() matches Val::List(_)),
    {
        match self {
            NodeValue::List(_) => true,
            _ => false,
        }
    }
}

/// Unfolding lemma: the model of a sequence of values, element by element.
pub proof fn lemma_dv_seq(s: Seq<NodeValue>)
    ensures
        dv_seq(s).len() == s.len(),
        forall|i: int| 0 <= i < s.len() ==> dv_seq(s)[i] == s[i].dv(),
    decreases s.len(),
{
    if s.len() > 0 {
        lemma_dv_seq(s.drop_last());
    }
}

/// Unfolding lemma: the model of a sequence of object entries, entry by entry.
pub proof fn lemma_dv_entries(s: Seq<(String, NodeValue)>)
    ensures
        dv_entries(s).len() == s.len(),
        forall|i: int| 0 <= i < s.len() ==> dv_entries(s)[i] == (s[i].0@, s[i].1.dv()),
    decreases s.len(),
{
    if s.len() > 0 {
        lemma_dv_entries(s.drop_last());
    }
}

/// Duplicates a sequence of values; the copy stands for the same mathematical values.
pub fn clone_values(items: &Vec<NodeValue>) -> (res: Vec<NodeValue>)
    ensures
        dv_seq(res@) == dv_seq(items@),
    decreases items@,
{
    let mut out: Vec<NodeValue> = Vec::new();
    let mut i: usize = 0;
    while i < items.len()
        invariant
            i <= items.len(),
            out@.len() == i as nat,
            forall|j: int| 0 <= j < i as int ==> out@[j].dv() == items@[j].dv(),
        decreases items@.len() - i,
    {
        let c = clone_value(&items[i]);
        out.push(c);
        i = i + 1;
    }
    proof {
        lemma_dv_seq(out@);
        lemma_dv_seq(items@);
        assert(dv_seq(out@) =~= dv_seq(items@));
    }
    out
}

/// Duplicates object entries; the copy stands for the same mathematical entries.
pub fn clone_entries(entries: &Vec<(String, NodeValue)>) -> (res: Vec<(String, NodeValue)>)
    ensures
        dv_entries(res@) == dv_entries(entries@),
    decreases entries@,
{
    let mut out: Vec<(String, NodeValue)> = Vec::new();
    let mut i: usize = 0;
    while i < entries.len()
        invariant
            i <= entries.len(),
            out@.len() == i as nat,
            forall|j: int| 0 <= j < i as int ==> out@[j].0@ == entries@[j].0@
                && out@[j].1.dv() == entries@[j].1.dv(),
        decreases entries@.len() - i,
    {
        let k = entries[i].0.clone();
        let c = clone_value(&entries[i].1);
        out.push((k, c));
        i = i + 1;
    }
    proof {
        lemma_dv_entries(out@);
        lemma_dv_entries(entries@);
        assert(dv_entries(out@) =~= dv_entries(entries@));
    }
    out
}

/// Duplicates a value; the copy stands for the same mathematical value.
pub fn clone_value(v: &NodeValue) -> (res: NodeValue)
    ensures
        res.dv() == v.dv(),
    decreases v,
{
    match v {
        NodeValue::Null => NodeValue::Null,
        NodeValue::Bool(b) => NodeValue::Bool(*b),
        NodeValue::Int(i) => NodeValue::Int(*i),
        NodeValue::Text(s) => NodeValue::Text(s.clone()),
        NodeValue::List(items) => NodeValue::List(clone_values(items)),
        NodeValue::Object(entries) => NodeValue::Object(clone_entries(entries)),
    }
}

impl Clone for NodeValue {
    fn clone(&self) -> (res: Self)
        ensures
            res.dv() == self.dv(),
    {
        clone_value(self)
    }
}

} // verus!
