//! Which trait implementations a box declaration asks to leave out.

use vstd::prelude::*;

verus! {

/// A trait implementation of a box that a declaration can leave out.
#[derive(Debug, Clone, Copy, PartialEq, Eq, Structural)]
pub enum SkipImpl {
    /// Every implementation.
    All,
    Deserialize,
    DeserializeSeed,
    Serialize,
    Sized,
    IsoBox,
}

/// The implementations that a declaration leaves out.
#[derive(Debug)]
pub struct SkipImpls(pub Vec<SkipImpl>);

impl SkipImpls {
    /// Whether `this_impl` is to be implemented: neither it nor all implementations are
    /// left out.
    pub fn should_impl(&self, this_impl: SkipImpl) -> (r: bool)
        ensures
            r == !(self.0@.contains(SkipImpl::All) || self.0@.contains(this_impl)),
    {
        let mut i: usize = 0;
        while i < self.0.len()
            invariant
                i <= self.0@.len(),
                forall|j: int| 0 <= j < i ==> self.0@[j] != SkipImpl::All,
            decreases self.0@.len() - i,
        {
            if self.0[i] == SkipImpl::All {
                return false;
            }
            i = i + 1;
        }
        let mut k: usize = 0;
        while k < self.0.len()
            invariant
                k <= self.0@.len(),
                forall|j: int| 0 <= j < self.0@.len() ==> self.0@[j] != SkipImpl::All,
                forall|j: int| 0 <= j < k ==> self.0@[j] != this_impl,
            decreases self.0@.len() - k,
        {
            if self.0[k] == this_impl {
                return false;
            }
            k = k + 1;
        }
        true
    }
}

} // verus!
