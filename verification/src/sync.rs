//! The locks, guards and wake-up handles that a chunk is built on.
//!
//! Nothing in this file is proved. Each item either declares a type of
//! `parking_lot` or of `std`, or calls one function of theirs and says what
//! is taken on trust about that call.

use vstd::prelude::*;
use crate::block::Block;

verus! {

/// `parking_lot::RawRwLock`, the lock word of a reader-writer lock.
#[verifier::external_type_specification]
#[verifier::external_body]
pub struct ExRawRwLock(parking_lot::RawRwLock);

/// `lock_api::RwLock`, of which `parking_lot::RwLock` is an alias. A lock is
/// opaque: no contract speaks of the value behind it, which changes while the
/// lock is shared.
#[verifier::external_type_specification]
#[verifier::external_body]
#[verifier::reject_recursive_types(R)]
#[verifier::reject_recursive_types(T)]
pub struct ExRwLock<R, T: ?Sized>(parking_lot::lock_api::RwLock<R, T>);

/// `parking_lot::RawMutex`, the lock word of a mutex.
#[verifier::external_type_specification]
#[verifier::external_body]
pub struct ExRawMutex(parking_lot::RawMutex);

/// `lock_api::Mutex`, of which `parking_lot::Mutex` is an alias.
#[verifier::external_type_specification]
#[verifier::external_body]
#[verifier::reject_recursive_types(R)]
#[verifier::reject_recursive_types(T)]
pub struct ExMutex<R, T: ?Sized>(parking_lot::lock_api::Mutex<R, T>);

/// `std::task::Waker`, the handle that resumes a suspended task.
#[verifier::external_type_specification]
#[verifier::external_body]
pub struct ExWaker(core::task::Waker);

/// `std::task::Poll`, with its two variants.
#[verifier::external_type_specification]
pub struct ExPoll<T>(core::task::Poll<T>);

/// `std::io::SeekFrom`, with its three variants.
#[verifier::external_type_specification]
pub struct ExSeekFrom(std::io::SeekFrom);

/// The lock of one block.
pub type BlockLock = parking_lot::RwLock<Block>;

/// The lock of the wake-up registry.
pub type Registry = parking_lot::Mutex<Vec<core::task::Waker>>;

/// Exclusive access to one block: a `parking_lot::RwLockWriteGuard`. The
/// access ends when the value is dropped.
#[verifier::external_body]
pub struct WriteGuard<'a> {
    inner: parking_lot::RwLockWriteGuard<'a, Block>,
}

/// Shared access to one block: a `parking_lot::RwLockReadGuard`. The access
/// ends when the value is dropped.
#[verifier::external_body]
pub struct ReadGuard<'a> {
    inner: parking_lot::RwLockReadGuard<'a, Block>,
}

/// Exclusive access to the wake-up registry: a `parking_lot::MutexGuard`.
#[verifier::external_body]
pub struct RegistryGuard<'a> {
    inner: parking_lot::MutexGuard<'a, Vec<core::task::Waker>>,
}

/// The bytes of the block that an exclusive guard gives access to. While the
/// guard lives nobody else can read or change them.
pub uninterp spec fn held_bytes(guard: WriteGuard<'_>) -> Seq<u8>;

/// The bytes of the block that a shared guard gives access to. While the
/// guard lives nobody can change them.
pub uninterp spec fn shared_bytes(guard: ReadGuard<'_>) -> Seq<u8>;

/// The bytes of the block that a lock was made with. They say nothing of
/// what the lock holds later: that is what its writers leave in it.
pub uninterp spec fn made_with(lock: BlockLock) -> Seq<u8>;

/// `RwLock::new`: an unlocked lock that owns `block`.
#[verifier::external_body]
pub(crate) fn new_lock(block: Block) -> (lock: BlockLock)
    ensures
        made_with(lock) == block@,
{
    parking_lot::RwLock::new(block)
}

/// The bytes of the block that a lock gives back when it is taken apart:
/// what its last writer left in it.
pub uninterp spec fn left_in(lock: BlockLock) -> Seq<u8>;

/// `RwLock::into_inner`: gives back the block that the lock owns. Its bytes
/// are named, and nothing more is claimed of them.
#[verifier::external_body]
pub(crate) fn into_block(lock: BlockLock) -> (block: Block)
    ensures
        block@ == left_in(lock),
{
    lock.into_inner()
}

/// `RwLock::write`: waits until nobody else has access to the block, then
/// returns exclusive access to it. Nothing is claimed of the bytes found.
#[verifier::external_body]
pub(crate) fn lock_exclusive<'a>(lock: &'a BlockLock) -> WriteGuard<'a> {
    WriteGuard { inner: lock.write() }
}

/// `RwLock::read_recursive`: waits until no writer has access to the block,
/// then returns shared access to it. Nothing is claimed of the bytes found.
#[verifier::external_body]
pub(crate) fn lock_shared<'a>(lock: &'a BlockLock) -> ReadGuard<'a> {
    ReadGuard { inner: lock.read_recursive() }
}

/// `RwLock::try_read_recursive`: shared access to the block if it can be had
/// at once, and `None` otherwise. Which of the two depends on what the other
/// holders of the chunk do, so nothing is claimed of the outcome.
#[verifier::external_body]
pub(crate) fn try_lock_shared<'a>(lock: &'a BlockLock) -> Option<ReadGuard<'a>> {
    match lock.try_read_recursive() {
        Some(inner) => Some(ReadGuard { inner }),
        None => None,
    }
}

/// `DerefMut::deref_mut` of the write guard: the block behind the guard. What
/// is written through the reference is what the guard holds afterwards. The
/// call cannot fail: it hands out a reference and does nothing else.
#[verifier::external_body]
pub(crate) fn held_block<'g, 'a>(guard: &'g mut WriteGuard<'a>) -> (block: &'g mut Block)
    ensures
        block@ == held_bytes(*old(guard)),
        held_bytes(*final(guard)) == final(block)@,
    no_unwind
{
    &mut *guard.inner
}

/// `Deref::deref` of the read guard: the block behind the guard.
#[verifier::external_body]
pub(crate) fn shared_block<'g, 'a>(guard: &'g ReadGuard<'a>) -> (block: &'g Block)
    ensures
        block@ == shared_bytes(*guard),
{
    &*guard.inner
}

/// `Mutex::new`: an unlocked registry that holds `handles`.
#[verifier::external_body]
pub(crate) fn new_registry(handles: Vec<core::task::Waker>) -> Registry {
    parking_lot::Mutex::new(handles)
}

/// `Mutex::lock`: waits until nobody else has access to the registry, then
/// returns exclusive access to it.
#[verifier::external_body]
pub(crate) fn lock_registry<'a>(registry: &'a Registry) -> RegistryGuard<'a> {
    RegistryGuard { inner: registry.lock() }
}

/// `DerefMut::deref_mut` of the mutex guard: the handles in the registry.
/// Nothing is claimed of them: any reader of the chunk may have added some.
#[verifier::external_body]
pub(crate) fn registered<'g, 'a>(guard: &'g mut RegistryGuard<'a>) -> &'g mut Vec<
    core::task::Waker,
> {
    &mut *guard.inner
}

/// `Waker::wake_by_ref`: asks the scheduler to run the task of `handle` again.
#[verifier::external_body]
pub(crate) fn wake(handle: &core::task::Waker) {
    handle.wake_by_ref()
}

/// `Waker::clone`: a second handle for the same task.
#[verifier::external_body]
pub(crate) fn clone_handle(handle: &core::task::Waker) -> core::task::Waker {
    handle.clone()
}

} // verus!
