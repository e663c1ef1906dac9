use vstd::prelude::*;

use crate::stmt::{Label, Op};

verus! {

/// The `(name, index)` pair of every `Label` instruction in `ops`, in
/// sequence order. A name may occur more than once.
pub open spec fn label_pairs(ops: Seq<Op>) -> Seq<(Seq<char>, int)>
    decreases ops.len(),
{
    if ops.len() == 0 {
        Seq::empty()
    } else {
        let init = label_pairs(ops.drop_last());
        match ops.last() {
            Op::Label(name, _) => init.push((name@, ops.len() - 1)),
            _ => init,
        }
    }
}

/// The index of the last `Label` instruction in `ops` named `name`, if any:
/// the address a jump to `name` resolves to. When a name repeats, the last
/// occurrence wins.
pub open spec fn last_label_index(ops: Seq<Op>, name: Seq<char>) -> Option<int>
    decreases ops.len(),
{
    if ops.len() == 0 {
        None
    } else {
        match ops.last() {
            Op::Label(n, _) => if n@ == name {
                Some(ops.len() - 1)
            } else {
                last_label_index(ops.drop_last(), name)
            },
            _ => last_label_index(ops.drop_last(), name),
        }
    }
}

/// Holds when the instruction at `i` in `ops` is a `Label` named `name`.
pub open spec fn label_at(ops: Seq<Op>, i: int, name: Seq<char>) -> bool {
    &&& 0 <= i < ops.len()
    &&& match ops[i] {
        Op::Label(n, _) => n@ == name,
        _ => false,
    }
}

/// `last_label_index` names exactly the labels of the sequence: when it
/// returns an index, a label with that name stands there and none stands
/// later; when it returns nothing, no instruction defines the name.
pub proof fn lemma_label_mapping_consistency(ops: Seq<Op>, name: Seq<char>)
    ensures
        match last_label_index(ops, name) {
            Some(i) => label_at(ops, i, name) && (forall|k: int|
                i < k < ops.len() ==> !label_at(ops, k, name)),
            None => forall|k: int| 0 <= k < ops.len() ==> !label_at(ops, k, name),
        },
    decreases ops.len(),
{
    if ops.len() > 0 {
        lemma_label_mapping_consistency(ops.drop_last(), name);
        assert(forall|k: int|
            0 <= k < ops.len() - 1 ==> label_at(ops, k, name) == label_at(
                ops.drop_last(),
                k,
                name,
            ));
    }
}

/// An ordered instruction sequence together with the mapping, derived from
/// it, from label name to instruction index.
#[derive(Debug)]
pub struct Program {
    /// The instructions, in execution order.
    pub instructions: Vec<Op>,
    /// The derived label mapping: one `(name, index)` entry per `Label`
    /// instruction, in sequence order; a lookup takes the last entry for a
    /// name, so a repeated name resolves to its last occurrence.
    pub labels: Vec<(String, usize)>,
}

impl Program {
    /// The label mapping as `(name, index)` pairs over mathematical values.
    pub open spec fn labels_view(self) -> Seq<(Seq<char>, int)> {
        self.labels@.map(|i: int, p: (String, usize)| (p.0@, p.1 as int))
    }

    /// The mapping is exactly the set of `Label` instructions present in the
    /// sequence, each mapped to its own index. Every structural mutation
    /// rebuilds it in full, so it can never diverge from the instructions.
    pub open spec fn wf(self) -> bool {
        self.labels_view() == label_pairs(self.instructions@)
    }

    /// Builds a program from a finished instruction sequence, deriving the
    /// label mapping in the same pass.
    pub fn new(instructions: Vec<Op>) -> (r: Program)
        ensures
            r.instructions@ == instructions@,
            r.wf(),
    {
        let mut p = Program { instructions, labels: Vec::new() };
        p.init_labels();
        p
    }

    /// Rebuilds the label mapping from scratch so that it is exactly the set
    /// of `Label` instructions in the sequence, later occurrences of a name
    /// overriding earlier ones. The instructions are left untouched.
    pub fn init_labels(&mut self)
        ensures
            final(self).instructions == old(self).instructions,
            final(self).labels_view() == label_pairs(old(self).instructions@),
            final(self).wf(),
    {
        self.labels.clear();
        assert(self.labels_view() =~= label_pairs(self.instructions@.take(0)));
        let n = self.instructions.len();
        let mut index: usize = 0;
        while index < n
            invariant
                n == self.instructions@.len(),
                index <= n,
                self.instructions == old(self).instructions,
                self.labels_view() == label_pairs(self.instructions@.take(index as int)),
            decreases n - index,
        {
            let ghost prefix = self.instructions@.take(index as int);
            assert(self.instructions@.take(index as int + 1).drop_last() =~= prefix);
            assert(self.instructions@.take(index as int + 1).last() == self.instructions@[
                index as int]);
            match &self.instructions[index] {
                Op::Label(name, _) => {
                    let entry = (name.clone(), index);
                    self.labels.push(entry);
                    assert(self.labels_view() =~= label_pairs(
                        self.instructions@.take(index as int + 1),
                    ));
                },
                _ => {},
            }
            index = index + 1;
        }
        assert(self.instructions@.take(n as int) =~= self.instructions@);
    }

    /// Returns the instruction at `index`, or nothing when `index` lies past
    /// the end of the sequence; never an error. Absence is how the machine
    /// detects falling off the end of the program.
    pub fn get(&self, index: usize) -> (r: Option<&Op>)
        ensures
            match r {
                Some(op) => index < self.instructions@.len() && *op == self.instructions@[
                    index as int],
                None => index >= self.instructions@.len(),
            },
    {
        if index < self.instructions.len() {
            Some(&self.instructions[index])
        } else {
            None
        }
    }

    /// Returns the instruction index the label's name resolves to, or
    /// nothing when no `Label` instruction defines the name. An undefined
    /// label is a runtime concern of the caller, not a construction-time
    /// error: a self-modifying program may define it later.
    pub fn decode_label(&self, label: &Label) -> (r: Option<usize>)
        requires
            self.wf(),
        ensures
            match r {
                Some(ix) => last_label_index(self.instructions@, label.name@) == Some(ix as int),
                None => last_label_index(self.instructions@, label.name@) is None,
            },
    {
        let mut i: usize = self.labels.len();
        while i > 0
            invariant
                self.wf(),
                i <= self.labels@.len(),
                forall|j: int|
                    i <= j < self.labels@.len() ==> self.labels_view()[j].0 != label.name@,
            decreases i,
        {
            i = i - 1;
            if self.labels[i].0 == label.name {
                proof {
                    lemma_last_match(self.instructions@, label.name@, i as int);
                }
                return Some(self.labels[i].1);
            }
        }
        proof {
            lemma_no_match(self.instructions@, label.name@);
        }
        None
    }

    /// Inserts one instruction at `index`, shifting every following
    /// instruction one position down, then rebuilds the label mapping. Any
    /// absolute index resolved before this call may be stale afterwards.
    pub fn inject_instruction(&mut self, instruction: Op, index: usize)
        requires
            index <= old(self).instructions@.len(),
        ensures
            final(self).instructions@ == old(self).instructions@.insert(index as int, instruction),
            final(self).wf(),
    {
        self.instructions.insert(index, instruction);
        self.init_labels();
    }

    /// Splices a whole instruction sequence in at `index`, keeping the
    /// relative order of the inserted sequence and of the existing tail,
    /// then rebuilds the label mapping once for the whole splice.
    pub fn inject_instructions(&mut self, instructions: Vec<Op>, index: usize)
        requires
            index <= old(self).instructions@.len(),
        ensures
            final(self).instructions@ == old(self).instructions@.subrange(0, index as int)
                + instructions@ + old(self).instructions@.subrange(
                index as int,
                old(self).instructions@.len() as int,
            ),
            final(self).wf(),
    {
        let mut inserted = instructions;
        let mut tail = self.instructions.split_off(index);
        self.instructions.append(&mut inserted);
        self.instructions.append(&mut tail);
        self.init_labels();
    }
}

/// Holds of a program pair when the second is the first with its label
/// mapping rebuilt from the (unchanged) instructions.
pub open spec fn rebuilt_from(pre: Program, post: Program) -> bool {
    &&& post.instructions == pre.instructions
    &&& post.labels_view() == label_pairs(pre.instructions@)
}

/// Rebuilding the label mapping is idempotent: rebuilding twice in a row
/// without a mutation in between yields an identical mapping.
pub proof fn lemma_rebuild_idempotent(p0: Program, p1: Program, p2: Program)
    requires
        rebuilt_from(p0, p1),
        rebuilt_from(p1, p2),
    ensures
        p2.labels_view() == p1.labels_view(),
        p2.instructions == p1.instructions,
{
}

/// The pair at `i` is the last one carrying `name`, so the lookup resolves
/// to its index.
proof fn lemma_last_match(ops: Seq<Op>, name: Seq<char>, i: int)
    requires
        0 <= i < label_pairs(ops).len(),
        label_pairs(ops)[i].0 == name,
        forall|j: int| i < j < label_pairs(ops).len() ==> label_pairs(ops)[j].0 != name,
    ensures
        last_label_index(ops, name) == Some(label_pairs(ops)[i].1),
    decreases ops.len(),
{
    if ops.len() > 0 {
        let init = label_pairs(ops.drop_last());
        match ops.last() {
            Op::Label(n, _) => {
                assert(label_pairs(ops) == init.push((n@, ops.len() - 1)));
                assert(forall|j: int| 0 <= j < init.len() ==> init[j] == label_pairs(ops)[j]);
                if n@ == name {
                    assert(label_pairs(ops)[label_pairs(ops).len() - 1].0 == name);
                    assert(i == label_pairs(ops).len() - 1);
                } else {
                    assert(i < label_pairs(ops).len() - 1);
                    lemma_last_match(ops.drop_last(), name, i);
                }
            },
            _ => {
                assert(label_pairs(ops) == init);
                assert(forall|j: int| 0 <= j < init.len() ==> init[j] == label_pairs(ops)[j]);
                lemma_last_match(ops.drop_last(), name, i);
            },
        }
    }
}

/// No pair carries `name`, so the lookup finds nothing.
proof fn lemma_no_match(ops: Seq<Op>, name: Seq<char>)
    requires
        forall|j: int| 0 <= j < label_pairs(ops).len() ==> label_pairs(ops)[j].0 != name,
    ensures
        last_label_index(ops, name) is None,
    decreases ops.len(),
{
    if ops.len() > 0 {
        let init = label_pairs(ops.drop_last());
        match ops.last() {
            Op::Label(n, _) => {
                assert(label_pairs(ops) == init.push((n@, ops.len() - 1)));
                assert(label_pairs(ops)[label_pairs(ops).len() - 1].0 == n@);
                assert(n@ != name);
            },
            _ => {
                assert(label_pairs(ops) == init);
            },
        }
        assert(forall|j: int| 0 <= j < init.len() ==> init[j] == label_pairs(ops)[j]);
        lemma_no_match(ops.drop_last(), name);
    }
}

} // verus!
