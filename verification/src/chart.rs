//! Bugzilla's boolean charts: numbered `f`/`o`/`v` triplets and `OP`/`CP`
//! groups, written as query parameters.
use vstd::prelude::*;
use crate::text::{decimal, push_char, push_decimal};

verus! {

/// One step of a boolean chart.
pub enum ChartOp {
    /// A condition: field, operator and value.
    Filter(Seq<char>, Seq<char>, Seq<char>),
    /// The start of a group joined by the given junction (`AND`/`OR`).
    Open(Seq<char>),
    /// The end of the innermost group.
    Close,
}

/// A parameter name: a letter followed by the operation's index.
pub open spec fn key(letter: char, i: nat) -> Seq<char> {
    seq![letter] + decimal(i)
}

/// The parameters that operation number `i` contributes.
pub open spec fn op_params(i: nat, op: ChartOp) -> Seq<(Seq<char>, Seq<char>)> {
    match op {
        ChartOp::Filter(field, oper, value) => seq![
            (key('f', i), field),
            (key('o', i), oper),
            (key('v', i), value),
        ],
        ChartOp::Open(junction) => seq![(key('f', i), "OP"@), (key('j', i), junction)],
        ChartOp::Close => seq![(key('f', i), "CP"@)],
    }
}

/// The parameters of a chart made of `ops`, in order, operation `i`
/// numbered `i`.
pub open spec fn chart_params(ops: Seq<ChartOp>) -> Seq<(Seq<char>, Seq<char>)>
    decreases ops.len(),
{
    if ops.len() == 0 {
        seq![]
    } else {
        chart_params(ops.drop_last()) + op_params((ops.len() - 1) as nat, ops.last())
    }
}

/// The character views of a list of parameters.
pub open spec fn pairs_view(v: Seq<(String, String)>) -> Seq<(Seq<char>, Seq<char>)> {
    v.map_values(|p: (String, String)| (p.0@, p.1@))
}

/// Builds the parameters of a boolean chart, numbering operations from 0.
pub struct ChartBuilder {
    params: Vec<(String, String)>,
    idx: u32,
    ops: Ghost<Seq<ChartOp>>,
}

fn key_string(letter: char, i: u32) -> (s: String)
    ensures
        s@ == key(letter, i as nat),
{
    let mut s = String::new();
    push_char(&mut s, letter);
    push_decimal(&mut s, i as u64);
    assert(s@ =~= key(letter, i as nat));
    s
}

impl ChartBuilder {
    /// The operations added so far.
    pub closed spec fn ops(&self) -> Seq<ChartOp> {
        self.ops@
    }

    /// The parameters hold exactly the chart of the operations added so far,
    /// and the next index is their number.
    pub closed spec fn wf(&self) -> bool {
        &&& pairs_view(self.params@) == chart_params(self.ops@)
        &&& self.idx as nat == self.ops@.len()
    }

    /// An empty chart.
    pub fn new() -> (c: Self)
        ensures
            c.wf(),
            c.ops() == Seq::<ChartOp>::empty(),
    {
        let c = ChartBuilder { params: Vec::new(), idx: 0, ops: Ghost(Seq::empty()) };
        assert(pairs_view(c.params@) =~= chart_params(c.ops@));
        c
    }

    proof fn lemma_extend(ops: Seq<ChartOp>, op: ChartOp)
        ensures
            chart_params(ops.push(op)) == chart_params(ops) + op_params(ops.len(), op),
    {
        assert(ops.push(op).drop_last() =~= ops);
    }

    /// Adds the condition `field op value`.
    pub fn add(&mut self, field: &str, op: &str, value: &str)
        requires
            old(self).wf(),
            old(self).ops().len() < u32::MAX,
        ensures
            final(self).wf(),
            final(self).ops() == old(self).ops().push(ChartOp::Filter(field@, op@, value@)),
    {
        let i = self.idx;
        let ghost before = pairs_view(self.params@);
        let f = key_string('f', i);
        let o = key_string('o', i);
        let v = key_string('v', i);
        self.params.push((f, String::from_str(field)));
        self.params.push((o, String::from_str(op)));
        self.params.push((v, String::from_str(value)));
        self.idx = i + 1;
        proof {
            let new_op = ChartOp::Filter(field@, op@, value@);
            Self::lemma_extend(self.ops@, new_op);
            self.ops@ = self.ops@.push(new_op);
            assert(pairs_view(self.params@) =~= before + op_params(i as nat, new_op));
        }
    }

    /// Opens a group whose conditions are joined by `junction`.
    pub fn open_group(&mut self, junction: &str)
        requires
            old(self).wf(),
            old(self).ops().len() < u32::MAX,
        ensures
            final(self).wf(),
            final(self).ops() == old(self).ops().push(ChartOp::Open(junction@)),
    {
        let i = self.idx;
        let ghost before = pairs_view(self.params@);
        let f = key_string('f', i);
        let j = key_string('j', i);
        self.params.push((f, String::from_str("OP")));
        self.params.push((j, String::from_str(junction)));
        self.idx = i + 1;
        proof {
            let new_op = ChartOp::Open(junction@);
            Self::lemma_extend(self.ops@, new_op);
            self.ops@ = self.ops@.push(new_op);
            assert(pairs_view(self.params@) =~= before + op_params(i as nat, new_op));
        }
    }

    /// Closes the innermost group.
    pub fn close_group(&mut self)
        requires
            old(self).wf(),
            old(self).ops().len() < u32::MAX,
        ensures
            final(self).wf(),
            final(self).ops() == old(self).ops().push(ChartOp::Close),
    {
        let i = self.idx;
        let ghost before = pairs_view(self.params@);
        let f = key_string('f', i);
        self.params.push((f, String::from_str("CP")));
        self.idx = i + 1;
        proof {
            let new_op = ChartOp::Close;
            Self::lemma_extend(self.ops@, new_op);
            self.ops@ = self.ops@.push(new_op);
            assert(pairs_view(self.params@) =~= before + op_params(i as nat, new_op));
        }
    }

    /// The parameters of the chart.
    pub fn into_params(self) -> (p: Vec<(String, String)>)
        requires
            self.wf(),
        ensures
            pairs_view(p@) == chart_params(self.ops()),
    {
        self.params
    }
}

} // verus!
