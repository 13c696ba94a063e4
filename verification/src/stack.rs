//! The operand stack: a LIFO of 256-bit words, capacity 1024.

use vstd::prelude::*;

use crate::evm::EvmError;
use crate::word::Word;

verus! {

/// The stack never holds more than this many words.
pub const MAXIMUM_STACK_SIZE: usize = 1024;

/// A bounded LIFO of words.  The view is the sequence of values, bottom
/// first, so the top of the stack is the last element of the view.
pub struct Stack {
    items: Vec<Word>,
}

impl View for Stack {
    type V = Seq<nat>;

    closed spec fn view(&self) -> Seq<nat> {
        self.items@.map_values(|w: Word| w@)
    }
}

/// Whatever sits on a stack is a word value: below 2^256.
pub broadcast proof fn lemma_stack_values(s: Stack, i: int)
    requires
        0 <= i < s@.len(),
    ensures
        #[trigger] s@[i] < crate::word::p256(),
{
    crate::word::lemma_limbs(s.items@[i]);
}

impl Stack {
    /// The stack respects its capacity.
    pub open spec fn wf(&self) -> bool {
        self@.len() <= 1024
    }

    /// An empty stack.
    pub fn new() -> (r: Stack)
        ensures
            r@ =~= Seq::<nat>::empty(),
            r.wf(),
    {
        Stack { items: Vec::new() }
    }

    /// The number of words held.
    pub fn len(&self) -> (r: usize)
        ensures
            r == self@.len(),
    {
        self.items.len()
    }

    /// Append a word; a full stack refuses with `StackOverflow`.
    pub fn push(&mut self, item: Word) -> (r: Result<(), EvmError>)
        requires
            old(self).wf(),
        ensures
            final(self).wf(),
            old(self)@.len() >= 1024 ==> r == Err::<(), EvmError>(EvmError::StackOverflow)
                && final(self)@ =~= old(self)@,
            old(self)@.len() < 1024 ==> r == Ok::<(), EvmError>(())
                && final(self)@ =~= old(self)@.push(item@),
    {
        if self.items.len() + 1 > MAXIMUM_STACK_SIZE {
            return Err(EvmError::StackOverflow);
        }
        self.items.push(item);
        Ok(())
    }

    /// Remove and return the top word; an empty stack refuses with
    /// `StackUnderflow`.
    pub fn pop(&mut self) -> (r: Result<Word, EvmError>)
        requires
            old(self).wf(),
        ensures
            final(self).wf(),
            old(self)@.len() == 0 ==> r == Err::<Word, EvmError>(EvmError::StackUnderflow)
                && final(self)@ =~= old(self)@,
            old(self)@.len() > 0 ==> (r matches Ok(w) && w@ == old(self)@.last()
                && final(self)@ =~= old(self)@.drop_last()),
    {
        match self.items.pop() {
            Some(w) => Ok(w),
            None => Err(EvmError::StackUnderflow),
        }
    }

    /// Read the word `n_from_top` slots below the top without removing it.
    pub fn peek(&self, n_from_top: usize) -> (r: Result<Word, EvmError>)
        ensures
            n_from_top >= self@.len() ==> r == Err::<Word, EvmError>(EvmError::StackUnderflow),
            n_from_top < self@.len() ==> (r matches Ok(w) && w@ == self@[self@.len() - 1
                - n_from_top]),
    {
        let stack_length = self.items.len();
        if n_from_top >= stack_length {
            return Err(EvmError::StackUnderflow);
        }
        let index = stack_length - 1 - n_from_top;
        Ok(self.items[index])
    }

    /// Exchange the top word with the one `n_from_top` slots below it.
    pub fn swap(&mut self, n_from_top: usize) -> (r: Result<(), EvmError>)
        requires
            old(self).wf(),
        ensures
            final(self).wf(),
            n_from_top >= old(self)@.len() ==> r == Err::<(), EvmError>(
                EvmError::StackUnderflow) && final(self)@ =~= old(self)@,
            n_from_top < old(self)@.len() ==> r == Ok::<(), EvmError>(()) && final(self)@
                =~= old(self)@.update(old(self)@.len() - 1, old(self)@[old(self)@.len() - 1
                - n_from_top]).update(old(self)@.len() - 1 - n_from_top, old(self)@.last()),
    {
        let stack_length = self.items.len();
        if n_from_top >= stack_length {
            return Err(EvmError::StackUnderflow);
        }
        let i = stack_length - 1;
        let j = stack_length - 1 - n_from_top;
        let a = self.items[i];
        let b = self.items[j];
        self.items[i] = b;
        self.items[j] = a;
        Ok(())
    }
}

} // verus!
