//! What the futures of this runtime are made of.
use vstd::prelude::*;

verus! {

/// The handle that wakes a task, [`std::task::Waker`]. Nothing is claimed of
/// it: the library stores wakers and hands them back to be woken.
#[verifier::external_type_specification]
#[verifier::external_body]
pub struct ExWaker(std::task::Waker);

/// What a poll of a future comes to.
#[derive(PartialEq, Eq, Debug)]
pub enum Poll<T> {
    /// The future is finished, with this value.
    Ready(T),
    /// The future is not finished; its task is woken when it may go on.
    Pending,
}

} // verus!
