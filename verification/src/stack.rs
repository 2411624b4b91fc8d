use vstd::prelude::*;

verus! {

/// The size of a new stack, in bytes.
pub const STACK_INITIAL_SIZE: usize = 2048;

/// The largest size a stack may grow to, in bytes.
pub const STACK_MAX_SIZE: usize = 1048576;

/// The alignment of stack memory.
pub const STACK_ALIGN: usize = 4096;

/// The byte that marks the bottom of a guarded stack.
pub const STACK_GUARD_VALUE: u8 = 0xDE;

/// How much room must stay free before a stack needs to grow.
pub const STACK_RED_ZONE: usize = 256;

/// The size a stack of `capacity` bytes grows to: double, at most `STACK_MAX_SIZE`.
pub open spec fn grown_capacity(capacity: int) -> int {
    if capacity * 2 <= STACK_MAX_SIZE {
        capacity * 2
    } else {
        STACK_MAX_SIZE as int
    }
}

/// The size a stack of `capacity` bytes shrinks to: half, at least `STACK_INITIAL_SIZE`.
pub open spec fn shrunk_capacity(capacity: int) -> int {
    if capacity / 2 >= STACK_INITIAL_SIZE {
        capacity / 2
    } else {
        STACK_INITIAL_SIZE as int
    }
}

/// Where stack memory may start: aligned to `STACK_ALIGN`, and low enough that a stack of the
/// largest size fits below the end of the address space.
pub open spec fn valid_base(base: usize) -> bool {
    &&& base % STACK_ALIGN == 0
    &&& base + STACK_MAX_SIZE <= usize::MAX
}

/// A goroutine stack: the address of its lowest byte, its size, and how much of it is in use
/// (measured down from the top).
#[derive(Debug)]
pub struct GoroutineStack {
    base: usize,
    capacity: usize,
    used: usize,
}

/// The statistics of the stack allocator.
pub struct StackAllocator {
    total_allocated: usize,
    total_memory: usize,
}

impl StackAllocator {
    pub closed spec fn spec_total_allocated(&self) -> usize {
        self.total_allocated
    }

    pub closed spec fn spec_total_memory(&self) -> usize {
        self.total_memory
    }

    pub fn new() -> (a: StackAllocator)
        ensures
            a.spec_total_allocated() == 0,
            a.spec_total_memory() == 0,
    {
        StackAllocator { total_allocated: 0, total_memory: 0 }
    }

    /// Accounts for a stack allocated at `base` (zero when the allocation failed): a failed
    /// allocation is an error; a successful one counts one more stack of `STACK_INITIAL_SIZE`
    /// bytes (the counters wrap as atomic counters do) and gives an empty stack.
    pub fn allocate(&mut self, base: usize) -> (r: Result<GoroutineStack, String>)
        requires
            valid_base(base),
        ensures
            base == 0 ==> r is Err && r->Err_0@ == "Failed to allocate stack"@ && final(self).spec_total_allocated()
                == old(self).spec_total_allocated() && final(self).spec_total_memory() == old(self).spec_total_memory(),
            base != 0 ==> r is Ok && r->Ok_0.wf() && r->Ok_0.bottom_spec() == base && r->Ok_0.capacity_spec()
                == STACK_INITIAL_SIZE && r->Ok_0.used_spec() == 0 && final(self).spec_total_allocated() == old(self).spec_total_allocated().wrapping_add(1) && final(self).spec_total_memory() == old(self).spec_total_memory().wrapping_add(STACK_INITIAL_SIZE),
    {
        if base == 0 {
            return Err("Failed to allocate stack".to_owned());
        }
        self.total_allocated = self.total_allocated.wrapping_add(1);
        self.total_memory = self.total_memory.wrapping_add(STACK_INITIAL_SIZE);
        Ok(GoroutineStack { base, capacity: STACK_INITIAL_SIZE, used: 0 })
    }

    /// The number of stacks allocated, their bytes, and those bytes in whole mebibytes.
    pub fn stats(&self) -> (r: (usize, usize, usize))
        ensures
            r == (self.spec_total_allocated(), self.spec_total_memory(), self.spec_total_memory() / 1024 / 1024),
    {
        (self.total_allocated, self.total_memory, self.total_memory / 1024 / 1024)
    }
}

impl GoroutineStack {
    pub closed spec fn bottom_spec(&self) -> usize {
        self.base
    }

    pub closed spec fn capacity_spec(&self) -> usize {
        self.capacity
    }

    pub closed spec fn used_spec(&self) -> usize {
        self.used
    }

    /// The size stays between the initial and the largest size, the memory fits in the address
    /// space, and no more than the whole stack is in use.
    pub open spec fn wf(&self) -> bool {
        &&& STACK_INITIAL_SIZE <= self.capacity_spec() <= STACK_MAX_SIZE
        &&& valid_base(self.bottom_spec())
        &&& self.used_spec() <= self.capacity_spec()
    }

    /// The address just past the highest byte.
    pub fn top(&self) -> (t: usize)
        requires
            self.wf(),
        ensures
            t == self.bottom_spec() + self.capacity_spec(),
    {
        self.base + self.capacity
    }

    /// The address of the lowest byte.
    pub fn bottom(&self) -> (b: usize)
        ensures
            b == self.bottom_spec(),
    {
        self.base
    }

    pub fn capacity(&self) -> (c: usize)
        ensures
            c == self.capacity_spec(),
    {
        self.capacity
    }

    /// The number of bytes in use.
    pub fn used(&self) -> (u: usize)
        ensures
            u == self.used_spec(),
    {
        self.used
    }

    /// Records the stack pointer `sp`: if it lies within the stack, the bytes from it up to the
    /// top are in use; a pointer outside the stack is ignored.
    pub fn update_used(&mut self, sp: usize)
        requires
            old(self).wf(),
        ensures
            final(self).wf(),
            final(self).bottom_spec() == old(self).bottom_spec(),
            final(self).capacity_spec() == old(self).capacity_spec(),
            old(self).bottom_spec() <= sp <= old(self).bottom_spec() + old(self).capacity_spec() ==> final(self).used_spec() == old(self).bottom_spec() + old(self).capacity_spec() - sp,
            !(old(self).bottom_spec() <= sp <= old(self).bottom_spec() + old(self).capacity_spec()) ==> final(self).used_spec() == old(self).used_spec(),
    {
        let top = self.top();
        if sp >= self.base && sp <= top {
            self.used = top - sp;
        }
    }

    /// Whether fewer than `STACK_RED_ZONE` bytes are free.
    pub fn needs_grow(&self) -> (b: bool)
        requires
            self.wf(),
        ensures
            b == (self.capacity_spec() - self.used_spec() < STACK_RED_ZONE),
    {
        self.capacity - self.used < STACK_RED_ZONE
    }

    /// The size the stack would grow to, or `None` when it has the largest size already.
    pub fn grow_capacity(&self) -> (c: Option<usize>)
        requires
            self.wf(),
        ensures
            grown_capacity(self.capacity_spec() as int) == self.capacity_spec() ==> c is None,
            grown_capacity(self.capacity_spec() as int) != self.capacity_spec() ==> c == Some(
                grown_capacity(self.capacity_spec() as int) as usize,
            ),
    {
        let new_capacity = if self.capacity * 2 <= STACK_MAX_SIZE {
            self.capacity * 2
        } else {
            STACK_MAX_SIZE
        };
        if new_capacity == self.capacity {
            None
        } else {
            Some(new_capacity)
        }
    }

    /// Grows the stack to `grown_capacity` once its memory was moved to `new_base` (zero when
    /// the reallocation failed). A stack of the largest size cannot grow.
    pub fn grow(&mut self, new_base: usize) -> (r: Result<(), String>)
        requires
            old(self).wf(),
            valid_base(new_base),
        ensures
            final(self).wf(),
            final(self).used_spec() == old(self).used_spec(),
            grown_capacity(old(self).capacity_spec() as int) == old(self).capacity_spec() ==> r is Err && r->Err_0@
                == "Stack size limit reached"@ && final(self).bottom_spec() == old(self).bottom_spec()
                && final(self).capacity_spec() == old(self).capacity_spec(),
            grown_capacity(old(self).capacity_spec() as int) != old(self).capacity_spec() && new_base == 0 ==> r is Err
                && r->Err_0@ == "Failed to grow stack"@ && final(self).bottom_spec() == old(self).bottom_spec()
                && final(self).capacity_spec() == old(self).capacity_spec(),
            grown_capacity(old(self).capacity_spec() as int) != old(self).capacity_spec() && new_base != 0 ==> r is Ok
                && final(self).bottom_spec() == new_base && final(self).capacity_spec() == grown_capacity(
                old(self).capacity_spec() as int,
            ),
    {
        match self.grow_capacity() {
            None => Err("Stack size limit reached".to_owned()),
            Some(new_capacity) => {
                if new_base == 0 {
                    return Err("Failed to grow stack".to_owned());
                }
                self.base = new_base;
                self.capacity = new_capacity;
                Ok(())
            },
        }
    }

    /// The size the stack would shrink to, or `None` when it stays as it is: more than a
    /// quarter of it is in use, or it has the initial size already.
    pub fn shrink_capacity(&self) -> (c: Option<usize>)
        requires
            self.wf(),
        ensures
            (self.used_spec() > self.capacity_spec() / 4 || shrunk_capacity(self.capacity_spec() as int)
                == self.capacity_spec()) ==> c is None,
            !(self.used_spec() > self.capacity_spec() / 4 || shrunk_capacity(self.capacity_spec() as int)
                == self.capacity_spec()) ==> c == Some(shrunk_capacity(self.capacity_spec() as int) as usize),
    {
        if self.used > self.capacity / 4 {
            return None;
        }
        let new_capacity = if self.capacity / 2 >= STACK_INITIAL_SIZE {
            self.capacity / 2
        } else {
            STACK_INITIAL_SIZE
        };
        if new_capacity == self.capacity {
            None
        } else {
            Some(new_capacity)
        }
    }

    /// Shrinks the stack to `shrunk_capacity` once its memory was moved to `new_base` (zero
    /// when the reallocation failed); a stack that is more than a quarter in use, or has the
    /// initial size, stays as it is.
    pub fn shrink(&mut self, new_base: usize) -> (r: Result<(), String>)
        requires
            old(self).wf(),
            valid_base(new_base),
        ensures
            final(self).wf(),
            final(self).used_spec() == old(self).used_spec(),
            (old(self).used_spec() > old(self).capacity_spec() / 4 || shrunk_capacity(old(self).capacity_spec() as int)
                == old(self).capacity_spec()) ==> r is Ok && final(self).bottom_spec() == old(self).bottom_spec()
                && final(self).capacity_spec() == old(self).capacity_spec(),
            !(old(self).used_spec() > old(self).capacity_spec() / 4 || shrunk_capacity(
                old(self).capacity_spec() as int,
            ) == old(self).capacity_spec()) && new_base == 0 ==> r is Err && r->Err_0@ == "Failed to shrink stack"@
                && final(self).bottom_spec() == old(self).bottom_spec() && final(self).capacity_spec() == old(self).capacity_spec(),
            !(old(self).used_spec() > old(self).capacity_spec() / 4 || shrunk_capacity(
                old(self).capacity_spec() as int,
            ) == old(self).capacity_spec()) && new_base != 0 ==> r is Ok && final(self).bottom_spec() == new_base
                && final(self).capacity_spec() == shrunk_capacity(old(self).capacity_spec() as int),
    {
        match self.shrink_capacity() {
            None => Ok(()),
            Some(new_capacity) => {
                if new_base == 0 {
                    return Err("Failed to shrink stack".to_owned());
                }
                self.base = new_base;
                self.capacity = new_capacity;
                Ok(())
            },
        }
    }
}

/// Growing a stack that can still double and then shrinking it while at most half of the old
/// size is in use gives back the old size.
pub proof fn law_grow_then_shrink_restores(capacity: int, used: int)
    requires
        STACK_INITIAL_SIZE <= capacity,
        capacity * 2 <= STACK_MAX_SIZE,
        0 <= used <= capacity / 2,
    ensures
        grown_capacity(capacity) == capacity * 2,
        !(used > grown_capacity(capacity) / 4),
        shrunk_capacity(grown_capacity(capacity)) == capacity,
{
}

/// Sizes never leave the range from the initial to the largest size, whatever sequence of
/// growing and shrinking is applied.
pub proof fn law_capacity_stays_in_range(capacity: int)
    requires
        STACK_INITIAL_SIZE <= capacity <= STACK_MAX_SIZE,
    ensures
        STACK_INITIAL_SIZE <= grown_capacity(capacity) <= STACK_MAX_SIZE,
        grown_capacity(capacity) >= capacity,
        STACK_INITIAL_SIZE <= shrunk_capacity(capacity) <= STACK_MAX_SIZE,
        shrunk_capacity(capacity) <= capacity,
{
}

/// Detects stack overflow by a marker byte at the bottom of the stack.
pub struct StackGuard {
    _limit: usize,
}

impl StackGuard {
    /// The stack limit that the guard records (no operation reads it).
    pub closed spec fn limit(&self) -> usize {
        self._limit
    }

    /// A guard for a stack whose bottom byte has been set to `STACK_GUARD_VALUE`; it records
    /// no limit (zero).
    pub fn new() -> (g: StackGuard)
        ensures
            g.limit() == 0,
    {
        StackGuard { _limit: 0 }
    }

    /// Given the byte now found at the bottom of the stack: whether the marker is intact (a
    /// changed marker means the stack overflowed).
    pub fn check(&self, _current_sp: usize, guard_value: u8) -> (ok: bool)
        ensures
            ok == (guard_value == STACK_GUARD_VALUE),
    {
        guard_value == STACK_GUARD_VALUE
    }
}

} // verus!
