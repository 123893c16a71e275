//! Renderer-owned working buffers.
use vstd::prelude::*;

verus! {

/// A buffer of `len` default-initialized values that the renderer owns for
/// its hot state.
pub struct Scratch<T> {
    items: Vec<T>,
}

impl<T> View for Scratch<T> {
    type V = Seq<T>;

    closed spec fn view(&self) -> Seq<T> {
        self.items@
    }
}

impl<T: Default> Scratch<T> {
    /// A buffer of `len` values, each `T::default()`. The buffer must take
    /// at least one byte, and its layout must fit the address space: its
    /// size rounded up to its alignment at most `isize::MAX`.
    pub fn new(len: usize) -> (scratch: Self)
        requires
            len * vstd::layout::size_of::<T>() != 0,
            len * vstd::layout::size_of::<T>() + vstd::layout::align_of::<T>() - 1 <= isize::MAX,
        ensures
            scratch@.len() == len,
            forall|i: int| 0 <= i < len ==> call_ensures(T::default, (), #[trigger] scratch@[i]),
    {
        let mut items: Vec<T> = Vec::with_capacity(len);
        let mut index: usize = 0;
        while index < len
            invariant
                index <= len,
                items@.len() == index,
                forall|i: int| 0 <= i < index ==> call_ensures(T::default, (), #[trigger] items@[i]),
            decreases len - index,
        {
            let value = T::default();
            items.push(value);
            index += 1;
        }
        Scratch { items }
    }
}

impl<T> Scratch<T> {
    /// The values, in order.
    pub fn as_slice(&self) -> (values: &[T])
        ensures
            values@ == self@,
    {
        self.items.as_slice()
    }

    /// The values, to be changed in place; the buffer holds what the
    /// returned slice holds once the borrow ends.
    pub fn as_mut_slice(&mut self) -> (values: &mut [T])
        ensures
            values@ == old(self)@,
            final(values)@ == final(self)@,
    {
        self.items.as_mut_slice()
    }
}

} // verus!
