//! A buffer that owns a fixed number of element slots.
use vstd::layout::size_of;
use vstd::prelude::*;

verus! {

/// Owns exactly `len()` slots for values of type `T`, without growth. A slot
/// is either vacant or holds one element; each element is dropped exactly
/// once, when the buffer is dropped.
pub struct Buffer<T> {
    slots: Vec<Option<T>>,
}

impl<T> View for Buffer<T> {
    type V = Seq<Option<T>>;

    closed spec fn view(&self) -> Seq<Option<T>> {
        self.slots@
    }
}

impl<T> Buffer<T> {
    /// The number of slots.
    pub fn len(&self) -> (r: usize)
        ensures
            r == self@.len(),
    {
        self.slots.len()
    }

    /// A buffer with no slots; it allocates nothing.
    pub fn empty() -> (r: Buffer<T>)
        ensures
            r@ == Seq::<Option<T>>::empty(),
    {
        Buffer { slots: Vec::new() }
    }

    /// A buffer of `len` vacant slots. The total size in bytes,
    /// `len * size_of::<T>()`, must be representable.
    pub fn new(len: usize) -> (r: Buffer<T>)
        requires
            len * size_of::<T>() <= usize::MAX,
        ensures
            r@.len() == len,
            forall|i: int| 0 <= i < len ==> #[trigger] r@[i] is None,
    {
        if len == 0 {
            return Buffer::empty();
        }
        let mut slots: Vec<Option<T>> = Vec::with_capacity(len);
        let mut k: usize = 0;
        while k < len
            invariant
                k <= len,
                slots@.len() == k,
                forall|i: int| 0 <= i < k ==> #[trigger] slots@[i] is None,
            decreases len - k,
        {
            slots.push(None);
            k = k + 1;
        }
        Buffer { slots }
    }

    /// The element in slot `i`, or `None` where the slot is vacant.
    pub fn get(&self, i: usize) -> (r: Option<&T>)
        requires
            i < self@.len(),
        ensures
            r == match self@[i as int] {
                Some(v) => Some(&v),
                None => None::<&T>,
            },
    {
        match &self.slots[i] {
            Some(v) => Some(v),
            None => None,
        }
    }

    /// Stores `v` in slot `i`; an element that the slot held is dropped.
    pub fn set(&mut self, i: usize, v: T)
        requires
            i < old(self)@.len(),
        ensures
            final(self)@ == old(self)@.update(i as int, Some(v)),
    {
        self.slots.set(i, Some(v));
    }
}

} // verus!
