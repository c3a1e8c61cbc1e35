use vstd::prelude::*;

use crate::error::{Error, ErrorView};

verus! {

/// Steps of one on a counter that report leaving the counter's range
/// instead of wrapping or clamping.
pub trait ExtraCheckedOps: Sized {
    /// The number the counter holds.
    spec fn value(&self) -> int;

    /// The smallest number the counter can hold.
    spec fn lowest() -> int;

    /// The largest number the counter can hold.
    spec fn highest() -> int;

    /// Adds one. At the top of the range the counter stays as it is and
    /// the step is reported as an overflow.
    fn checked_increment(&mut self) -> (res: Result<(), Error>)
        ensures
            match res {
                Ok(_) => old(self).value() < Self::highest() && final(self).value() == old(
                    self,
                ).value() + 1,
                Err(error) => old(self).value() == Self::highest() && *final(self) == *old(self)
                    && error@ == ErrorView::Overflow,
            },
    ;

    /// Takes one away. At the bottom of the range the counter stays as it
    /// is and the step is reported as an underflow.
    fn checked_decrement(&mut self) -> (res: Result<(), Error>)
        ensures
            match res {
                Ok(_) => old(self).value() > Self::lowest() && final(self).value() == old(
                    self,
                ).value() - 1,
                Err(error) => old(self).value() == Self::lowest() && *final(self) == *old(self)
                    && error@ == ErrorView::Underflow,
            },
    ;
}

impl ExtraCheckedOps for u8 {
    open spec fn value(&self) -> int {
        *self as int
    }

    open spec fn lowest() -> int {
        u8::MIN as int
    }

    open spec fn highest() -> int {
        u8::MAX as int
    }

    fn checked_increment(&mut self) -> (res: Result<(), Error>) {
        match (*self).checked_add(1) {
            Some(next) => {
                *self = next;
                Ok(())
            },
            None => Err(Error::Overflow),
        }
    }

    fn checked_decrement(&mut self) -> (res: Result<(), Error>) {
        match (*self).checked_sub(1) {
            Some(next) => {
                *self = next;
                Ok(())
            },
            None => Err(Error::Underflow),
        }
    }
}

impl ExtraCheckedOps for u32 {
    open spec fn value(&self) -> int {
        *self as int
    }

    open spec fn lowest() -> int {
        u32::MIN as int
    }

    open spec fn highest() -> int {
        u32::MAX as int
    }

    fn checked_increment(&mut self) -> (res: Result<(), Error>) {
        match (*self).checked_add(1) {
            Some(next) => {
                *self = next;
                Ok(())
            },
            None => Err(Error::Overflow),
        }
    }

    fn checked_decrement(&mut self) -> (res: Result<(), Error>) {
        match (*self).checked_sub(1) {
            Some(next) => {
                *self = next;
                Ok(())
            },
            None => Err(Error::Underflow),
        }
    }
}

impl ExtraCheckedOps for i32 {
    open spec fn value(&self) -> int {
        *self as int
    }

    open spec fn lowest() -> int {
        i32::MIN as int
    }

    open spec fn highest() -> int {
        i32::MAX as int
    }

    fn checked_increment(&mut self) -> (res: Result<(), Error>) {
        match (*self).checked_add(1) {
            Some(next) => {
                *self = next;
                Ok(())
            },
            None => Err(Error::Overflow),
        }
    }

    fn checked_decrement(&mut self) -> (res: Result<(), Error>) {
        match (*self).checked_sub(1) {
            Some(next) => {
                *self = next;
                Ok(())
            },
            None => Err(Error::Underflow),
        }
    }
}

} // verus!
