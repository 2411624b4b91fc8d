use vstd::prelude::*;

verus! {

/// The callee-saved registers of an x86-64 execution context, in the order the switch saves
/// them.
#[derive(Clone, Debug)]
pub struct Context {
    pub rsp: u64,
    pub rbp: u64,
    pub rbx: u64,
    pub r12: u64,
    pub r13: u64,
    pub r14: u64,
    pub r15: u64,
}

/// A word that is to be written to memory: `value` at address `addr`.
#[derive(Clone, Copy, Debug, PartialEq, Eq, Structural)]
pub struct StackWrite {
    pub addr: u64,
    pub value: u64,
}

/// The stack pointer a new goroutine starts with: the top rounded down to 16 bytes, minus the
/// 16 bytes that hold the entry address (the subtraction wraps).
pub open spec fn initial_rsp(stack_top: u64) -> u64 {
    (stack_top & !15u64).wrapping_sub(16)
}

impl Context {
    /// A context with every register zero.
    pub fn new_empty() -> (c: Context)
        ensures
            c.rsp == 0 && c.rbp == 0 && c.rbx == 0 && c.r12 == 0 && c.r13 == 0 && c.r14 == 0 && c.r15 == 0,
    {
        Context { rsp: 0, rbp: 0, rbx: 0, r12: 0, r13: 0, r14: 0, r15: 0 }
    }

    /// The first context of a goroutine whose stack ends at `stack_top` and whose entry function
    /// is at address `entry`: its stack pointer is `initial_rsp(stack_top)`, the other registers
    /// are zero, and the entry address is to be stored at the stack pointer (the write that comes
    /// with the context), so that the first switch returns into the entry function.
    pub fn make_initial(stack_top: u64, entry: u64) -> (r: (Context, StackWrite))
        ensures
            r.0.rsp == initial_rsp(stack_top),
            r.0.rbp == 0 && r.0.rbx == 0 && r.0.r12 == 0 && r.0.r13 == 0 && r.0.r14 == 0 && r.0.r15 == 0,
            r.1.addr == r.0.rsp,
            r.1.value == entry,
    {
        let aligned_top = stack_top & !15u64;
        let rsp = aligned_top.wrapping_sub(16);
        (Context { rsp, rbp: 0, rbx: 0, r12: 0, r13: 0, r14: 0, r15: 0 }, StackWrite { addr: rsp, value: entry })
    }
}

/// For a stack top of at least 16, the initial stack pointer is 16-byte aligned, lies at least
/// 16 and less than 32 bytes below the top (so that after the entry address is popped the stack
/// pointer is 8 modulo 16, as the x86-64 calling convention expects at a function's entry).
pub proof fn law_initial_rsp_aligned(stack_top: u64)
    requires
        stack_top >= 16,
    ensures
        initial_rsp(stack_top) % 16 == 0,
        initial_rsp(stack_top) + 16 <= stack_top,
        stack_top < initial_rsp(stack_top) + 32,
        (initial_rsp(stack_top) + 8) % 16 == 8,
{
    assert((stack_top & !15u64) % 16 == 0 && (stack_top & !15u64) <= stack_top && stack_top - (stack_top & !15u64) < 16)
        by (bit_vector);
    assert((stack_top & !15u64) >= 16) by (bit_vector)
        requires
            stack_top >= 16,
    ;
}

} // verus!
