use std::marker::PhantomData;
use vstd::prelude::*;
use vstd::std_specs::convert::IntoSpec;

use crate::error::{Error, ErrorView};
use crate::extra_checked_ops::ExtraCheckedOps;

verus! {

/// The message of the error that [`InstanceCounter::add`] gives for an
/// element whose position lies outside the counter.
pub const ELEMENT_OUT_OF_RANGE: &'static str = "Element would not fit in the counter buffer";

/// Counts how often each element of a small enumerable type was seen. The
/// element's conversion into `u8` is its position among the `N` counters.
///
/// Which position an element has can be stated for the types whose
/// conversion is specified, as that of [`crate::CauseOfDeath`] is; of any
/// other type the contracts say what holds whatever the position is.
pub struct InstanceCounter<T: Into<u8>, const N: usize> {
    counter: [u8; N],
    marker: PhantomData<T>,
}

impl<T: Into<u8>, const N: usize> View for InstanceCounter<T, N> {
    type V = Seq<u8>;

    /// The `N` counts, by position.
    closed spec fn view(&self) -> Seq<u8> {
        self.counter@
    }
}

impl<T: Into<u8>, const N: usize> InstanceCounter<T, N> {
    /// The position of `element` among the counters.
    pub open spec fn position(element: T) -> int {
        <T as IntoSpec<u8>>::into_spec(element) as int
    }

    /// A counter that has seen nothing.
    pub fn new() -> (counter: Self)
        ensures
            counter@ == Seq::new(N as nat, |i: int| 0u8),
    {
        let counter = Self { counter: [0;N], marker: PhantomData };
        assert(counter@ =~= Seq::new(N as nat, |i: int| 0u8));
        counter
    }

    /// Counts `element` once more. An element whose position is not below
    /// `N` and a count that is already 255 are errors, and leave the
    /// counter as it was.
    pub fn add(&mut self, element: T) -> (res: Result<(), Error>)
        ensures
            final(self)@.len() == N,
            res.is_err() ==> final(self)@ == old(self)@,
            res.is_ok() ==> exists|position: int|
                0 <= position < N && old(self)@[position] < u8::MAX && final(self)@ == old(
                    self,
                )@.update(position, (old(self)@[position] + 1) as u8),
            <T as IntoSpec<u8>>::obeys_into_spec() ==> match res {
                Ok(_) => Self::position(element) < N && old(self)@[Self::position(element)]
                    < u8::MAX && final(self)@ == old(self)@.update(
                    Self::position(element),
                    (old(self)@[Self::position(element)] + 1) as u8,
                ),
                Err(error) => if Self::position(element) < N {
                    old(self)@[Self::position(element)] == u8::MAX && error@
                        == ErrorView::Overflow
                } else {
                    error@ == ErrorView::Assertion(ELEMENT_OUT_OF_RANGE@)
                },
            },
    {
        let position = Self::element_to_usize(element);
        if position >= N {
            return Err(Error::Assertion(ELEMENT_OUT_OF_RANGE));
        }
        let mut count = self.counter[position];
        match count.checked_increment() {
            Ok(_) => {
                self.counter[position] = count;
                assert(self@ =~= old(self)@.update(position as int, count));
                Ok(())
            },
            Err(error) => Err(error),
        }
    }

    /// How often `element` was counted, or `None` where its position is not
    /// below `N`.
    pub fn get(&self, element: T) -> (count: Option<u8>)
        ensures
            count matches Some(count) ==> exists|position: int|
                0 <= position < N && self@[position] == count,
            <T as IntoSpec<u8>>::obeys_into_spec() ==> count == if Self::position(element) < N {
                Some(self@[Self::position(element)])
            } else {
                None
            },
    {
        let index = Self::element_to_usize(element);
        if index < N {
            let count = self.counter[index];
            assert(self@[index as int] == count);
            Some(count)
        } else {
            None
        }
    }

    /// There is one count for each of the `N` positions.
    pub proof fn lemma_len(self)
        ensures
            self@.len() == N,
    {
    }

    fn element_to_usize(element: T) -> (position: usize)
        ensures
            <T as IntoSpec<u8>>::obeys_into_spec() ==> position == Self::position(element),
    {
        let byte: u8 = element.into();
        byte as usize
    }
}

} // verus!
