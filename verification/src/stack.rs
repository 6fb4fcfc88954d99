//! A bounded stack, as the interpreter keeps its operands on.

use vstd::prelude::*;

verus! {

/// A stack that holds no more values than it was made for.
pub struct Stack<T> {
    head: Option<Box<Node<T>>>,
    size: usize,
    max_size: usize,
}

struct Node<T> {
    elem: T,
    next: Option<Box<Node<T>>>,
}

/// The values of a chain of nodes, the first node's value first.
spec fn chain<T>(link: Option<Box<Node<T>>>) -> Seq<T>
    decreases link,
{
    match link {
        None => Seq::empty(),
        Some(node) => seq![node.elem] + chain(node.next),
    }
}

impl<T> Stack<T> {
    /// The stack counts its values rightly and holds no more than it may.
    pub closed spec fn wf(&self) -> bool {
        self.size == chain(self.head).len() && self.size <= self.max_size
    }

    /// The values on the stack, the top first.
    pub closed spec fn view(&self) -> Seq<T> {
        chain(self.head)
    }

    /// The number of values that the stack may hold.
    pub closed spec fn limit(&self) -> nat {
        self.max_size as nat
    }

    /// An empty stack that may hold `size` values.
    pub fn new(size: usize) -> (stack: Self)
        ensures
            stack.wf(),
            stack@ == Seq::<T>::empty(),
            stack.limit() == size,
    {
        Stack { head: None, size: 0, max_size: size }
    }

    /// The number of values on the stack.
    pub fn size(&self) -> (n: usize)
        requires
            self.wf(),
        ensures
            n == self@.len(),
    {
        self.size
    }

    /// Puts a value on top of a stack that is not full.
    pub fn push(&mut self, elem: T)
        requires
            old(self).wf(),
            old(self)@.len() < old(self).limit(),
        ensures
            final(self).wf(),
            final(self)@ == seq![elem] + old(self)@,
            final(self).limit() == old(self).limit(),
    {
        let new_node = Box::new(Node { elem, next: self.head.take() });
        self.head = Some(new_node);
        self.size += 1;
    }

    /// Puts a value on top of the stack if the stack is not full, and hands
    /// it back if the stack is.
    pub fn try_push(&mut self, elem: T) -> (r: Result<(), (crate::runtime::Error, T)>)
        requires
            old(self).wf(),
        ensures
            final(self).wf(),
            final(self).limit() == old(self).limit(),
            old(self)@.len() < old(self).limit() ==> r is Ok && final(self)@ == seq![elem] + old(
                self,
            )@,
            old(self)@.len() >= old(self).limit() ==> r == Err::<(), (crate::runtime::Error, T)>(
                (crate::runtime::Error::StackOverflow, elem),
            ) && final(self)@ == old(self)@,
    {
        if self.size < self.max_size {
            self.push(elem);
            Ok(())
        } else {
            Err((crate::runtime::Error::StackOverflow, elem))
        }
    }

    /// Takes the top value off a stack that is not empty.
    pub fn pop(&mut self) -> (top: Option<T>)
        requires
            old(self).wf(),
            old(self)@.len() > 0,
        ensures
            final(self).wf(),
            top == Some(old(self)@[0]),
            final(self)@ == old(self)@.skip(1),
            final(self).limit() == old(self).limit(),
    {
        match self.head.take() {
            Some(node) => {
                let node = *node;
                self.head = node.next;
                self.size -= 1;
                proof {
                    assert(self@ =~= old(self)@.skip(1));
                }
                Some(node.elem)
            },
            None => None,
        }
    }

    /// The top value, if there is one.
    pub fn peek(&self) -> (top: Option<&T>)
        ensures
            match top {
                Some(elem) => self@.len() > 0 && *elem == self@[0],
                None => self@.len() == 0,
            },
    {
        match &self.head {
            Some(node) => Some(&node.elem),
            None => None,
        }
    }

    /// The top value, to be changed in place, if there is one.
    pub fn peek_mut(&mut self) -> (top: Option<&mut T>)
        requires
            old(self).wf(),
        ensures
            final(self).wf(),
            final(self).limit() == old(self).limit(),
            match top {
                Some(elem) => old(self)@.len() > 0 && *elem == old(self)@[0] && final(self)@ == old(
                    self,
                )@.update(0, *final(elem)),
                None => old(self)@.len() == 0 && final(self)@ == old(self)@,
            },
    {
        match &mut self.head {
            Some(node) => {
                proof {
                    assert(forall|x: T|
                        (seq![x] + chain(node.next)) =~= (seq![node.elem] + chain(node.next)).update(
                            0,
                            x,
                        ));
                }
                Some(&mut node.elem)
            },
            None => None,
        }
    }

    /// The values from the top down, each handed out once.
    pub fn into_iter(self) -> (iter: IntoIter<T>)
        requires
            self.wf(),
        ensures
            iter.wf(),
            iter@ == self@,
    {
        IntoIter(self)
    }

    /// The values from the top down, by reference.
    pub fn iter(&self) -> (iter: Iter<'_, T>)
        ensures
            iter@ == self@,
    {
        match &self.head {
            Some(node) => Iter { next: Some(&**node) },
            None => Iter { next: None },
        }
    }
}

impl<T> Drop for Stack<T> {
    /// Gives the nodes back one after the other, so that a long stack is
    /// dropped without one call inside the other for each of its values.
    fn drop(&mut self)
        opens_invariants none
        no_unwind
    {
        let mut link: Option<Box<Node<T>>> = None;
        std::mem::swap(&mut link, &mut self.head);
        loop
            decreases chain(link).len(),
        {
            match link {
                Some(node) => {
                    let Node { elem, next } = *node;
                    link = next;
                },
                None => {
                    break ;
                },
            }
        }
    }
}

/// Hands out the values of a stack from the top down.
pub struct IntoIter<T>(Stack<T>);

impl<T> IntoIter<T> {
    /// The values that are still to come.
    pub closed spec fn view(&self) -> Seq<T> {
        self.0@
    }

    /// The stack that the values come from counts them rightly.
    pub closed spec fn wf(&self) -> bool {
        self.0.wf()
    }

    /// The next value, while there is one.
    pub fn next(&mut self) -> (item: Option<T>)
        requires
            old(self).wf(),
            old(self)@.len() > 0,
        ensures
            final(self).wf(),
            item == Some(old(self)@[0]),
            final(self)@ == old(self)@.skip(1),
    {
        self.0.pop()
    }

    /// The number of values that are still to come.
    pub fn remaining(&self) -> (n: usize)
        requires
            self.wf(),
        ensures
            n == self@.len(),
    {
        self.0.size()
    }
}

/// Hands out references to the values of a stack from the top down.
pub struct Iter<'a, T> {
    next: Option<&'a Node<T>>,
}

impl<'a, T> Iter<'a, T> {
    /// The values that are still to come.
    pub closed spec fn view(&self) -> Seq<T> {
        match self.next {
            Some(node) => seq![node.elem] + chain(node.next),
            None => Seq::empty(),
        }
    }

    /// The next value, or `None` when all have been handed out.
    pub fn next(&mut self) -> (item: Option<&'a T>)
        ensures
            match item {
                Some(elem) => old(self)@.len() > 0 && *elem == old(self)@[0] && final(self)@ == old(
                    self,
                )@.skip(1),
                None => old(self)@.len() == 0 && final(self)@ == old(self)@,
            },
    {
        match self.next {
            Some(node) => {
                self.next = match &node.next {
                    Some(following) => Some(&**following),
                    None => None,
                };
                proof {
                    assert(self@ =~= old(self)@.skip(1));
                }
                Some(&node.elem)
            },
            None => None,
        }
    }
}

} // verus!
