use vstd::prelude::*;

verus! {

/// A last-in first-out stack over a vector; the top is the last item.
#[derive(Debug)]
pub struct Stack<T> {
    items: Vec<T>,
}

impl<T> View for Stack<T> {
    type V = Seq<T>;

    closed spec fn view(&self) -> Seq<T> {
        self.items@
    }
}

/// What popping a stack with contents `s` gives: the top item, if any, and
/// the remaining contents.
pub open spec fn popped<T>(s: Seq<T>) -> (Option<T>, Seq<T>) {
    if s.len() == 0 {
        (None, s)
    } else {
        (Some(s.last()), s.drop_last())
    }
}

impl<T> Stack<T> {
    /// An empty stack.
    pub fn new() -> (s: Stack<T>)
        ensures
            s@ == Seq::<T>::empty(),
    {
        Stack { items: Vec::new() }
    }

    /// Puts `item` on top.
    pub fn push(&mut self, item: T)
        ensures
            final(self)@ == old(self)@.push(item),
    {
        self.items.push(item);
    }

    /// Takes the top item off, if there is one.
    pub fn pop(&mut self) -> (r: Option<T>)
        ensures
            (r, final(self)@) == popped(old(self)@),
    {
        self.items.pop()
    }

    /// The number of items.
    pub fn len(&self) -> (n: usize)
        ensures
            n == self@.len(),
    {
        self.items.len()
    }
}

impl<T: Copy> Stack<T> {
    /// A stack with the same items.
    pub fn duplicate(&self) -> (s: Stack<T>)
        ensures
            s@ == self@,
    {
        let mut items: Vec<T> = Vec::new();
        let mut i: usize = 0;
        while i < self.items.len()
            invariant
                i <= self.items@.len(),
                items@ == self.items@.take(i as int),
            decreases self.items@.len() - i,
        {
            items.push(self.items[i]);
            i = i + 1;
            assert(items@ =~= self.items@.take(i as int));
        }
        assert(self.items@.take(i as int) =~= self.items@);
        Stack { items }
    }
}

/// Popping right after a push gives the pushed item back and the stack as
/// it was.
pub proof fn lemma_pop_undoes_push<T>(s: Seq<T>, x: T)
    ensures
        popped(s.push(x)) == (Some(x), s),
{
    assert(s.push(x).drop_last() =~= s);
}

/// Items come off in the reverse order they went on: pushing `a` then `b`
/// and popping twice yields `b`, then `a`, then the original stack.
pub proof fn lemma_last_in_first_out<T>(s: Seq<T>, a: T, b: T)
    ensures
        popped(s.push(a).push(b)).0 == Some(b),
        popped(popped(s.push(a).push(b)).1) == (Some(a), s),
{
    lemma_pop_undoes_push(s.push(a), b);
    lemma_pop_undoes_push(s, a);
}

/// Popping an empty stack gives nothing and leaves it empty.
pub proof fn lemma_pop_empty<T>()
    ensures
        popped(Seq::<T>::empty()) == (None::<T>, Seq::<T>::empty()),
{
}

/// The classic stack walk-through: push 1, 2 and 3, then pop once. Returns
/// the stack after the pushes, the popped item and the stack after the pop.
pub fn classic_example_stack() -> (r: (Stack<i32>, Option<i32>, Stack<i32>))
    ensures
        r.0@ == seq![1i32, 2i32, 3i32],
        r.1 == Some(3i32),
        r.2@ == seq![1i32, 2i32],
{
    let mut stack = Stack::<i32>::new();
    stack.push(1);
    stack.push(2);
    stack.push(3);
    let full = stack.duplicate();
    let top = stack.pop();
    assert(full@ =~= seq![1i32, 2i32, 3i32]);
    assert(stack@ =~= seq![1i32, 2i32]);
    (full, top, stack)
}

} // verus!
