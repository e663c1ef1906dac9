use vstd::prelude::*;

verus! {

/// The machine's register store: a mapping from non-negative register index
/// to an integer value. Reading a register that was never written yields
/// zero; writing creates the entry if absent. There is no fixed capacity.
#[derive(Debug)]
pub struct Registers {
    /// Backing storage; every index at or beyond its length reads as zero.
    pub values: Vec<i64>,
}

impl Registers {
    /// The value register `i` holds: the stored value if one was written,
    /// zero otherwise.
    pub open spec fn reg(self, i: int) -> i64 {
        if 0 <= i < self.values@.len() {
            self.values@[i]
        } else {
            0
        }
    }

    /// A fresh store, in which every register reads as zero.
    pub fn new() -> (r: Registers)
        ensures
            forall|i: int| r.reg(i) == 0,
    {
        Registers { values: Vec::new() }
    }

    /// Returns the value of register `index`; total, never an error.
    pub fn read(&self, index: usize) -> (r: i64)
        ensures
            r == self.reg(index as int),
    {
        if index < self.values.len() {
            self.values[index]
        } else {
            0
        }
    }

    /// Stores `value` in register `index`, leaving every other register as
    /// it was; total, never an error.
    pub fn write(&mut self, index: usize, value: i64)
        ensures
            forall|j: int|
                final(self).reg(j) == (if j == index as int {
                    value
                } else {
                    old(self).reg(j)
                }),
    {
        while self.values.len() <= index
            invariant
                forall|j: int| self.reg(j) == old(self).reg(j),
            decreases index - self.values@.len() + 1,
        {
            self.values.push(0i64);
        }
        self.values.set(index, value);
    }
}

} // verus!
