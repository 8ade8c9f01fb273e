//! The operand stack.
//!
//! An ordered sequence of signed integers; the view places the top of the
//! stack at the end of the sequence.  Popping from an empty stack yields 0
//! without changing the stack: missing operands default to zero and the
//! default is not pushed back.

use vstd::prelude::*;

verus! {

/// Result of popping one value from a mathematical stack: the value (0 when
/// the stack is empty) and the remaining stack.
pub open spec fn spec_pop(s: Seq<i64>) -> (i64, Seq<i64>) {
    if s.len() == 0 {
        (0i64, s)
    } else {
        (s.last(), s.drop_last())
    }
}

/// The operand stack; the most recently pushed value is the top.
pub struct Stack {
    items: Vec<i64>,
}

impl View for Stack {
    type V = Seq<i64>;

    closed spec fn view(&self) -> Seq<i64> {
        self.items@
    }
}

impl Stack {
    /// A new, empty stack.
    pub fn new() -> (r: Stack)
        ensures
            r@ == Seq::<i64>::empty(),
    {
        Stack { items: Vec::new() }
    }

    /// Number of values on the stack.
    pub fn len(&self) -> (r: usize)
        ensures
            r == self@.len(),
    {
        self.items.len()
    }

    /// Push `v` on top of the stack.
    pub fn push(&mut self, v: i64)
        ensures
            final(self)@ == old(self)@.push(v),
    {
        self.items.push(v);
    }

    /// Pop the top of the stack; an empty stack yields 0 and stays empty.
    pub fn pop(&mut self) -> (r: i64)
        ensures
            r == spec_pop(old(self)@).0,
            final(self)@ == spec_pop(old(self)@).1,
    {
        match self.items.pop() {
            Some(v) => v,
            None => 0,
        }
    }

    /// The values on the stack, top last.
    pub fn as_slice(&self) -> (r: &[i64])
        ensures
            r@ == self@,
    {
        self.items.as_slice()
    }

    /// A snapshot of the values on the stack, top last.
    pub fn to_vec(&self) -> (r: Vec<i64>)
        ensures
            r@ == self@,
    {
        let mut out: Vec<i64> = Vec::new();
        let mut i: usize = 0;
        while i < self.items.len()
            invariant
                i <= self.items@.len(),
                out@ == self.items@.take(i as int),
            decreases self.items@.len() - i,
        {
            out.push(self.items[i]);
            i = i + 1;
            proof {
                assert(out@ =~= self.items@.take(i as int));
            }
        }
        proof {
            assert(out@ =~= self.items@);
        }
        out
    }
}

} // verus!
