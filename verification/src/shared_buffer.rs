//! The buffer pool: a fixed number of slots, each behind a lock of its own,
//! and a directory behind another lock that decides who gets which slot.
//!
//! A participant asks the pool for a slot to read or to write, works on the
//! buffer through the handle it gets, and gives the handle back. The
//! directory's lock is held only while a slot is chosen or released, never
//! while a participant works on a buffer.
//!
//! The pool never waits. It tries the directory's lock, and where another
//! thread is choosing or releasing at that moment it says so and leaves
//! everything as it is: the caller asks again. A handle knows the directory
//! of the pool that lent it, and a slot goes back into that directory and no
//! other, after the lock on its buffer has been given up. So a slot is free
//! in a directory only while nobody holds the lock on its buffer.
use crate::directory::SlotDirectory;
use crate::sync::{guard_mut, guard_ref, try_lock_recover, unlock};
use std::ops::{Deref, DerefMut};
use std::sync::Mutex;
use std::sync::MutexGuard;
use vstd::prelude::*;

verus! {

/// Why an acquire lent no slot.
#[derive(Clone, Copy, Debug, PartialEq, Eq, Structural)]
pub enum AcquireError {
    /// Every slot is lent out.
    Exhausted,
    /// The directory was in another thread's hands. Nothing has changed; the
    /// caller may ask again.
    Busy,
    /// The directory set a slot aside, but the lock on its buffer is held.
    /// The slot stays set aside: its buffer is in use.
    Held,
}

/// The loan of one slot: the slot's index, the lock on its buffer, and the
/// directory that the slot goes back into.
#[verifier::reject_recursive_types(T)]
pub struct SharedBufferLock<'a, T> {
    id: usize,
    lock: MutexGuard<'a, T>,
    info: &'a Mutex<SlotDirectory>,
}

impl<'a, T> SharedBufferLock<'a, T> {
    /// The index of the slot that is lent out.
    pub closed spec fn slot(&self) -> nat {
        self.id as nat
    }

    /// The index of the slot that is lent out.
    pub fn id(&self) -> (id: usize)
        ensures
            id == self.slot(),
    {
        self.id
    }
}

impl<T> Deref for SharedBufferLock<'_, T> {
    type Target = T;

    /// The buffer of the slot that is lent out.
    fn deref(&self) -> &T {
        guard_ref(&self.lock)
    }
}

impl<T> DerefMut for SharedBufferLock<'_, T> {
    /// The buffer of the slot that is lent out, to be written in place. The
    /// handle goes on naming the same slot.
    fn deref_mut(&mut self) -> (buffer: &mut T)
        ensures
            final(self).slot() == old(self).slot(),
    {
        guard_mut(&mut self.lock)
    }
}

/// A pool of buffers of type `T`.
#[verifier::reject_recursive_types(T)]
pub struct SharedBuffer<T> {
    info: Mutex<SlotDirectory>,
    buffers: Vec<Mutex<T>>,
}

impl<T> SharedBuffer<T> {
    /// The number of slots of the pool. It never changes.
    pub closed spec fn slot_count(&self) -> nat {
        self.buffers@.len()
    }

    /// A pool of `buffer_len` slots, each holding the default value of `T`.
    pub fn new(buffer_len: usize) -> (pool: Self) where T: Default
        requires
            buffer_len > 0,
        ensures
            pool.slot_count() == buffer_len,
    {
        let mut buffers: Vec<Mutex<T>> = Vec::with_capacity(buffer_len);
        let mut k: usize = 0;
        while k < buffer_len
            invariant
                k <= buffer_len,
                buffers@.len() == k,
            decreases buffer_len - k,
        {
            buffers.push(Mutex::new(T::default()));
            k += 1;
        }
        SharedBuffer { info: Mutex::new(SlotDirectory::new(buffer_len)), buffers }
    }

    /// A pool of `buffer_len` slots, each holding a clone of `default`.
    pub fn new_with_default(buffer_len: usize, default: T) -> (pool: Self) where T: Clone
        requires
            buffer_len > 0,
        ensures
            pool.slot_count() == buffer_len,
    {
        let mut buffers: Vec<Mutex<T>> = Vec::with_capacity(buffer_len);
        let mut k: usize = 0;
        while k < buffer_len
            invariant
                k <= buffer_len,
                buffers@.len() == k,
            decreases buffer_len - k,
        {
            buffers.push(Mutex::new(default.clone()));
            k += 1;
        }
        SharedBuffer { info: Mutex::new(SlotDirectory::new(buffer_len)), buffers }
    }

    /// A pool with one slot for each item of `vec`, holding a clone of it.
    pub fn new_with_vec(vec: &Vec<T>) -> (pool: Self) where T: Clone
        requires
            vec@.len() > 0,
        ensures
            pool.slot_count() == vec@.len(),
    {
        let mut buffers: Vec<Mutex<T>> = Vec::with_capacity(vec.len());
        let mut k: usize = 0;
        while k < vec.len()
            invariant
                k <= vec@.len(),
                buffers@.len() == k,
            decreases vec@.len() - k,
        {
            buffers.push(Mutex::new(vec[k].clone()));
            k += 1;
        }
        SharedBuffer { info: Mutex::new(SlotDirectory::new(vec.len())), buffers }
    }

    /// The number of slots of the pool.
    pub fn len(&self) -> (n: usize)
        ensures
            n == self.slot_count(),
    {
        self.buffers.len()
    }

    /// Tries the lock of this pool's directory: the directory, or `None`
    /// where another thread has it.
    fn get_buffer_info(&self) -> Option<MutexGuard<'_, SlotDirectory>> {
        try_lock_recover(&self.info)
    }

    /// Chooses a slot for a reader and marks it occupied.
    fn get_read_index(&self) -> (chosen: Result<usize, AcquireError>)
        ensures
            match chosen {
                Ok(i) => i < self.slot_count(),
                Err(error) => error != AcquireError::Held,
            },
    {
        match self.get_buffer_info() {
            Some(mut info) => {
                let directory = guard_mut(&mut info);
                slot_or_exhausted(directory.choose_for_read_among(self.buffers.len()))
            },
            None => Err(AcquireError::Busy),
        }
    }

    /// Chooses a slot for a writer and marks it occupied.
    fn get_write_index(&self) -> (chosen: Result<usize, AcquireError>)
        ensures
            match chosen {
                Ok(i) => i < self.slot_count(),
                Err(error) => error != AcquireError::Held,
            },
    {
        match self.get_buffer_info() {
            Some(mut info) => {
                let directory = guard_mut(&mut info);
                slot_or_exhausted(directory.choose_for_write_among(self.buffers.len()))
            },
            None => Err(AcquireError::Busy),
        }
    }

    /// Tries the lock on the buffer of slot `index`: the buffer, or `None`
    /// where the lock is held.
    fn get_buffer(&self, index: usize) -> Option<MutexGuard<'_, T>>
        requires
            index < self.slot_count(),
    {
        try_lock_recover(&self.buffers[index])
    }

    /// The handle of slot `index` over its locked buffer; no handle where
    /// the lock on the buffer could not be had.
    fn lend<'a>(&'a self, index: usize, buffer: Option<MutexGuard<'a, T>>) -> (handle: Result<
        SharedBufferLock<'a, T>,
        AcquireError,
    >)
        ensures
            match buffer {
                Some(_) => handle matches Ok(h) && h.slot() == index,
                None => handle matches Err(error) && error == AcquireError::Held,
            },
    {
        match buffer {
            Some(lock) => Ok(SharedBufferLock { id: index, lock, info: &self.info }),
            None => Err(AcquireError::Held),
        }
    }

    /// Lends out the free slot that was written most recently, for reading.
    /// Lends nothing when every slot is lent out, and nothing when the
    /// directory is in another thread's hands at this moment.
    pub fn read(&self) -> (handle: Result<SharedBufferLock<'_, T>, AcquireError>)
        ensures
            handle matches Ok(h) ==> h.slot() < self.slot_count(),
    {
        match self.get_read_index() {
            Ok(index) => {
                let buffer = self.get_buffer(index);
                self.lend(index, buffer)
            },
            Err(error) => Err(error),
        }
    }

    /// Takes back a slot that was lent out for reading. The slot goes back
    /// into the directory of the pool that lent it, whichever pool is asked,
    /// after the lock on its buffer has been given up. Where that directory
    /// is in another thread's hands at this moment, nothing is done and the
    /// handle comes back: the caller asks again.
    pub fn read_finish<'a>(&self, lock: SharedBufferLock<'a, T>) -> (kept: Result<
        (),
        SharedBufferLock<'a, T>,
    >)
        ensures
            kept matches Err(handle) ==> handle.slot() == lock.slot(),
    {
        match try_lock_recover(lock.info) {
            Some(mut info) => {
                let SharedBufferLock { id, lock: buffer, info: _ } = lock;
                unlock(buffer);
                let directory = guard_mut(&mut info);
                if id < directory.len() {
                    directory.release_read(id);
                }
                Ok(())
            },
            None => Err(lock),
        }
    }

    /// Lends out the free slot that was written longest ago, for writing.
    /// Lends nothing when every slot is lent out, and nothing when the
    /// directory is in another thread's hands at this moment.
    pub fn write(&self) -> (handle: Result<SharedBufferLock<'_, T>, AcquireError>)
        ensures
            handle matches Ok(h) ==> h.slot() < self.slot_count(),
    {
        match self.get_write_index() {
            Ok(index) => {
                let buffer = self.get_buffer(index);
                self.lend(index, buffer)
            },
            Err(error) => Err(error),
        }
    }

    /// Takes back a slot that was lent out for writing: its buffer is now the
    /// freshest of the pool. The slot goes back into the directory of the
    /// pool that lent it, whichever pool is asked, after the lock on its
    /// buffer has been given up. Where that directory is in another thread's
    /// hands at this moment, nothing is done and the handle comes back: the
    /// caller asks again.
    pub fn write_finish<'a>(&self, lock: SharedBufferLock<'a, T>) -> (kept: Result<
        (),
        SharedBufferLock<'a, T>,
    >)
        ensures
            kept matches Err(handle) ==> handle.slot() == lock.slot(),
    {
        match try_lock_recover(lock.info) {
            Some(mut info) => {
                let SharedBufferLock { id, lock: buffer, info: _ } = lock;
                unlock(buffer);
                let directory = guard_mut(&mut info);
                if id < directory.len() {
                    directory.release_write(id);
                }
                Ok(())
            },
            None => Err(lock),
        }
    }
}

/// What an acquire has found in the directory: the slot that was chosen, or
/// that every slot is lent out.
pub fn slot_or_exhausted(chosen: Option<usize>) -> (answer: Result<usize, AcquireError>)
    ensures
        answer == match chosen {
            Some(i) => Ok::<usize, AcquireError>(i),
            None => Err::<usize, AcquireError>(AcquireError::Exhausted),
        },
{
    match chosen {
        Some(i) => Ok(i),
        None => Err(AcquireError::Exhausted),
    }
}

} // verus!
