//! Kernel threads as owned values: a context handle paired with the
//! kernel stack it lives on.
//!
//! Allocating and freeing real stack memory, and building a live context
//! on one, are the platform layer's work; a `Thread` here records the
//! resulting addresses and is moved between its pool slot and the
//! processor, never duplicated.

use crate::context::Context;
use vstd::prelude::*;

verus! {

/// Size and alignment of a kernel stack, in bytes.
pub const KERNEL_STACK_SIZE: usize = 0x2000;

/// A fixed-size, naturally-aligned kernel stack, named by the address of
/// its lowest byte. Address 0 is the sentinel empty stack of the
/// bootstrap context, which owns no memory.
pub struct KernelStack(pub usize);

impl KernelStack {
    /// The sentinel stack of the bootstrap context.
    pub fn new_empty() -> (r: KernelStack)
        ensures
            r.0 == 0,
    {
        KernelStack(0)
    }

    /// First address past the stack, where a fresh context is pushed.
    pub fn top(&self) -> (r: usize)
        requires
            self.0 + KERNEL_STACK_SIZE <= usize::MAX,
        ensures
            r == self.0 + KERNEL_STACK_SIZE,
    {
        self.0 + KERNEL_STACK_SIZE
    }
}

/// An owning pair of context handle and kernel stack.
pub struct Thread {
    /// Handle to the thread's saved context on its kernel stack.
    pub context: Context,
    /// The stack the context lives on; freed when the thread is destroyed.
    pub kstack: KernelStack,
}

impl Thread {
    /// The bootstrap thread: a null context on the sentinel stack. Used
    /// exactly once, as the *from* side of the very first switch; its
    /// saved state is written then but never read again.
    pub fn get_boot_thread() -> (r: Box<Thread>)
        ensures
            r.context.content_addr == 0,
            r.kstack.0 == 0,
    {
        Box::new(Thread { context: Context { content_addr: 0 }, kstack: KernelStack(0) })
    }
}

} // verus!
