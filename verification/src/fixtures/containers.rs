//! Container types for module-level items.
use vstd::prelude::*;

verus! {

/// A stack data structure backed by a `Vec`.
pub struct Stack<T> {
    elements: Vec<T>,
}

impl<T> View for Stack<T> {
    type V = Seq<T>;

    closed spec fn view(&self) -> Seq<T> {
        self.elements@
    }
}

/// The stack contents after one operation: `Some(v)` pushes `v`, `None`
/// pops (nothing happens on an empty stack).
pub open spec fn stack_step<T>(s: Seq<T>, op: Option<T>) -> Seq<T> {
    match op {
        Some(v) => s.push(v),
        None => if s.len() == 0 {
            s
        } else {
            s.drop_last()
        },
    }
}

/// The stack contents after a series of operations.
pub open spec fn stack_run<T>(s: Seq<T>, ops: Seq<Option<T>>) -> Seq<T>
    decreases ops.len(),
{
    if ops.len() == 0 {
        s
    } else {
        stack_step(stack_run(s, ops.drop_last()), ops.last())
    }
}

/// The number of pushes in a series of operations.
pub open spec fn push_count<T>(ops: Seq<Option<T>>) -> nat
    decreases ops.len(),
{
    if ops.len() == 0 {
        0
    } else {
        push_count(ops.drop_last()) + if ops.last() is Some {
            1nat
        } else {
            0nat
        }
    }
}

/// The number of pops in a series of operations that found an element.
pub open spec fn pop_hits<T>(s: Seq<T>, ops: Seq<Option<T>>) -> nat
    decreases ops.len(),
{
    if ops.len() == 0 {
        0
    } else {
        pop_hits(s, ops.drop_last()) + if ops.last() is None && stack_run(s, ops.drop_last()).len()
            > 0 {
            1nat
        } else {
            0nat
        }
    }
}

/// After `n` pushes and `m` pops that returned a value, a stack holds `n - m`
/// more elements than it started with.
pub proof fn lemma_stack_len_after<T>(s: Seq<T>, ops: Seq<Option<T>>)
    ensures
        stack_run(s, ops).len() + pop_hits(s, ops) == s.len() + push_count(ops),
    decreases ops.len(),
{
    if ops.len() > 0 {
        lemma_stack_len_after(s, ops.drop_last());
    }
}

impl<T> Stack<T> {
    /// Creates a new empty stack.
    pub fn new() -> (r: Self)
        ensures
            r@ == Seq::<T>::empty(),
    {
        Stack { elements: Vec::new() }
    }

    /// Pushes a value onto the top of the stack.
    pub fn push(&mut self, value: T)
        ensures
            final(self)@ == old(self)@.push(value),
            final(self)@ == stack_step(old(self)@, Some(value)),
    {
        self.elements.push(value);
    }

    /// Removes and returns the top element, or `None` if empty.
    pub fn pop(&mut self) -> (r: Option<T>)
        ensures
            old(self)@.len() == 0 ==> r is None && final(self)@ == old(self)@,
            old(self)@.len() > 0 ==> r == Some(old(self)@.last()) && final(self)@ == old(
                self,
            )@.drop_last(),
            final(self)@ == stack_step(old(self)@, None),
    {
        self.elements.pop()
    }

    /// Returns `true` if the stack contains no elements.
    pub fn is_empty(&self) -> (r: bool)
        ensures
            r == (self@.len() == 0),
    {
        self.elements.len() == 0
    }

    /// Returns the number of elements in the stack.
    pub fn len(&self) -> (r: usize)
        ensures
            r == self@.len(),
    {
        self.elements.len()
    }
}

impl<T> Default for Stack<T> {
    fn default() -> (r: Self)
        ensures
            r@ == Seq::<T>::empty(),
    {
        Self::new()
    }
}

/// A pair of two values, possibly of different types.
pub struct Pair<A, B> {
    first: A,
    second: B,
}

impl<A, B> Pair<A, B> {
    /// The first element.
    pub closed spec fn spec_first(&self) -> A {
        self.first
    }

    /// The second element.
    pub closed spec fn spec_second(&self) -> B {
        self.second
    }

    /// Creates a new pair.
    pub fn new(first: A, second: B) -> (r: Self)
        ensures
            r.spec_first() == first,
            r.spec_second() == second,
    {
        Pair { first, second }
    }

    /// Returns a reference to the first element.
    pub fn first(&self) -> (r: &A)
        ensures
            *r == self.spec_first(),
    {
        &self.first
    }

    /// Returns a reference to the second element.
    pub fn second(&self) -> (r: &B)
        ensures
            *r == self.spec_second(),
    {
        &self.second
    }
}

/// The maximum capacity for a fixed-size container.
pub const MAX_CAPACITY: usize = 256;

} // verus!
