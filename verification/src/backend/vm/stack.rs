//! The operand stack.
use vstd::prelude::*;
use crate::shared::value::Value;
use crate::shared::value::ValueView;
use crate::shared::value::views;

verus! {

/// The most values that a stack holds.
pub const STACK_MAX: usize = 256;

/// A stack of at most [`STACK_MAX`] values. Its view is the sequence of the
/// values' views, the top last.
#[derive(Debug)]
pub struct Stack {
    values: Vec<Value>,
}

impl View for Stack {
    type V = Seq<ValueView>;

    closed spec fn view(&self) -> Seq<ValueView> {
        views(self.values@)
    }
}

impl Stack {
    /// A stack that was built by `new` and changed by the methods below is
    /// never deeper than [`STACK_MAX`].
    pub open spec fn well_formed(&self) -> bool {
        self@.len() <= STACK_MAX
    }

    pub fn new() -> (stack: Stack)
        ensures
            stack@ == Seq::<ValueView>::empty(),
            stack.well_formed(),
    {
        let stack = Stack { values: Vec::with_capacity(STACK_MAX) };
        assert(stack@ =~= Seq::<ValueView>::empty());
        stack
    }

    /// Puts `value` on top. A full stack refuses it and stays as it is.
    pub fn push(&mut self, value: Value) -> (r: Result<(), String>)
        ensures
            old(self)@.len() < STACK_MAX ==> r is Ok && final(self)@ == old(self)@.push(value@),
            old(self)@.len() >= STACK_MAX ==> final(self)@ == old(self)@ && (r matches Err(message)
                && message@ == "Stack overflow"@),
            old(self).well_formed() ==> final(self).well_formed(),
    {
        if self.values.len() >= STACK_MAX {
            return Err(String::from_str("Stack overflow"));
        }
        self.values.push(value);
        assert(self@ =~= old(self)@.push(value@));
        Ok(())
    }

    /// Takes the top value off.
    pub fn pop(&mut self) -> (r: Result<Value, String>)
        ensures
            old(self)@.len() > 0 ==> final(self)@ == old(self)@.drop_last() && (r matches Ok(value)
                && value@ == old(self)@.last()),
            old(self)@.len() == 0 ==> final(self)@ == old(self)@ && (r matches Err(message)
                && message@ == "Stack underflow"@),
    {
        match self.values.pop() {
            Some(value) => {
                assert(self@ =~= old(self)@.drop_last());
                Ok(value)
            },
            None => Err(String::from_str("Stack underflow")),
        }
    }

    /// The value `distance` places below the top.
    pub fn peek(&self, distance: usize) -> (r: Result<&Value, String>)
        ensures
            distance < self@.len() ==> (r matches Ok(value) && value@ == self@[self@.len() - 1
                - distance]),
            distance >= self@.len() ==> (r matches Err(message) && message@ == "Stack underflow"@),
    {
        if distance >= self.values.len() {
            return Err(String::from_str("Stack underflow"));
        }
        let index: usize = self.values.len() - 1 - distance;
        Ok(&self.values[index])
    }

    /// The value `distance` places below the top, to be changed in place.
    pub fn peek_mut(&mut self, distance: usize) -> (r: Result<&mut Value, String>)
        ensures
            distance < old(self)@.len() ==> (r matches Ok(value) && value@ == old(self)@[old(
                self,
            )@.len() - 1 - distance] && final(self)@ == old(self)@.update(
                old(self)@.len() - 1 - distance,
                final(value)@,
            )),
            distance >= old(self)@.len() ==> final(self)@ == old(self)@ && (r matches Err(message)
                && message@ == "Stack underflow"@),
    {
        if distance >= self.values.len() {
            return Err(String::from_str("Stack underflow"));
        }
        let index: usize = self.values.len() - 1 - distance;
        Ok(&mut self.values[index])
    }

    pub fn len(&self) -> (n: usize)
        ensures
            n == self@.len(),
    {
        self.values.len()
    }

    pub fn is_empty(&self) -> (r: bool)
        ensures
            r == (self@.len() == 0),
    {
        self.values.len() == 0
    }

    pub fn clear(&mut self)
        ensures
            final(self)@ == Seq::<ValueView>::empty(),
    {
        self.values.clear();
        assert(self@ =~= Seq::<ValueView>::empty());
    }

    /// Drops every value above the first `slot`; a `slot` above the top
    /// changes nothing.
    pub fn reset_to(&mut self, slot: usize)
        ensures
            slot <= old(self)@.len() ==> final(self)@ == old(self)@.subrange(0, slot as int),
            slot > old(self)@.len() ==> final(self)@ == old(self)@,
    {
        if slot <= self.values.len() {
            self.values.truncate(slot);
            assert(self@ =~= old(self)@.subrange(0, slot as int));
        }
    }

    /// The value in slot `index`, counted from the bottom.
    pub fn get(&self, index: usize) -> (value: &Value)
        requires
            index < self@.len(),
        ensures
            value@ == self@[index as int],
    {
        &self.values[index]
    }

    /// Puts `value` in slot `index`, counted from the bottom; a stack
    /// without that slot refuses it and stays as it is.
    pub fn set(&mut self, index: usize, value: Value) -> (done: bool)
        ensures
            done == (index < old(self)@.len()),
            done ==> final(self)@ == old(self)@.update(index as int, value@),
            !done ==> final(self)@ == old(self)@,
    {
        if index < self.values.len() {
            self.values[index] = value;
            assert(self@ =~= old(self)@.update(index as int, value@));
            true
        } else {
            false
        }
    }
}

impl Default for Stack {
    fn default() -> (stack: Stack)
        ensures
            stack@ == Seq::<ValueView>::empty(),
    {
        Stack::new()
    }
}

} // verus!
