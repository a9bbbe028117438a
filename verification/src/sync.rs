//! Shared ownership and locking: the calls into `std::sync::Arc` and into the
//! `spin` crate that the block cache makes, with what each is taken to do.
use vstd::prelude::*;
use std::sync::Arc;
use spin::rwlock::RwLock;

verus! {

/// The reader-writer spin lock of the `spin` crate.
#[verifier::external_type_specification]
#[verifier::external_body]
#[verifier::reject_recursive_types(T)]
#[verifier::reject_recursive_types(R)]
pub struct ExRwLock<T: ?Sized, R>(RwLock<T, R>);

/// The default relax strategy of the `spin` crate's locks.
#[verifier::external_type_specification]
#[verifier::external_body]
pub struct ExSpin(spin::relax::Spin);

/// `Arc::clone`: a new pointer to the same allocation, so in Verus's model of
/// `Arc` (by the value it points to) equal to the original.
#[verifier::external_body]
pub(crate) fn arc_clone<T: ?Sized>(a: &Arc<T>) -> (r: Arc<T>)
    ensures
        r == *a,
{
    Arc::clone(a)
}

/// `Arc::strong_count`: how many `Arc`s point to the allocation right now.
/// That depends on every holder in the program, so nothing is stated of it.
#[verifier::external_body]
pub(crate) fn arc_strong_count<T: ?Sized>(a: &Arc<T>) -> usize {
    Arc::strong_count(a)
}

/// `spin::RwLock::new`: a lock that holds `value`. The lock is opaque here, so
/// nothing is stated of the result.
#[verifier::external_body]
pub(crate) fn rwlock_new<T>(value: T) -> RwLock<T> {
    RwLock::new(value)
}

/// `spin::RwLock::try_write`: takes the write lock if it is free at once and
/// never waits. When it was taken, the guarded value is handed to `f`, the
/// lock is released when `f` returns, and `Some` of `f`'s result comes back;
/// when it was not, `f` is not called and `None` comes back. Whether the lock
/// was free depends on the other holders, and the guarded value is opaque
/// here, so nothing more is stated.
#[verifier::external_body]
pub(crate) fn rwlock_try_write_with<T, V>(lock: &RwLock<T>, f: impl FnOnce(&mut T) -> V) -> (r:
    Option<V>)
    requires
        forall|t: &mut T| #[trigger] f.requires((t,)),
    ensures
        r matches Some(v) ==> exists|t: &mut T| #[trigger] f.ensures((t,), v),
{
    match lock.try_write() {
        Some(mut guard) => Some(f(&mut *guard)),
        None => None,
    }
}

} // verus!
