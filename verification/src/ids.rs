//! Identifiers of surfaces, outputs and textures, handed out by counters.

use vstd::prelude::*;

verus! {

/// A counter that hands out identifiers, starting at 1.
#[derive(Debug)]
pub struct IdAllocator {
    next: u64,
}

/// The value a counter moves to after handing out `n`; it wraps past the
/// largest `u64`, as an atomic `fetch_add` does.
pub open spec fn after(n: u64) -> u64 {
    if n == u64::MAX { 0 } else { (n + 1) as u64 }
}

impl IdAllocator {
    /// The identifier that the next allocation hands out.
    pub closed spec fn next_value(&self) -> u64 {
        self.next
    }

    /// A counter whose first identifier is 1.
    pub fn new() -> (a: Self)
        ensures
            a.next_value() == 1,
    {
        IdAllocator { next: 1 }
    }

    /// Hands out the current value and advances the counter.
    pub fn allocate(&mut self) -> (id: u64)
        ensures
            id == old(self).next_value(),
            final(self).next_value() == after(old(self).next_value()),
    {
        let id = self.next;
        self.next = self.next.wrapping_add(1);
        id
    }
}

/// Identifier of a Wayland object, such as a surface.
#[derive(Debug, Clone, Copy, PartialEq, Eq, Hash, Structural)]
pub struct ObjectId(u64);

/// Identifier of an output (a monitor).
#[derive(Debug, Clone, Copy, PartialEq, Eq, Hash, Structural)]
pub struct OutputId(u64);

/// Identifier of a texture.
#[derive(Debug, Clone, Copy, PartialEq, Eq, Hash, Structural)]
pub struct TextureId(u64);

impl View for ObjectId {
    type V = u64;

    closed spec fn view(&self) -> u64 {
        self.0
    }
}

impl View for OutputId {
    type V = u64;

    closed spec fn view(&self) -> u64 {
        self.0
    }
}

impl View for TextureId {
    type V = u64;

    closed spec fn view(&self) -> u64 {
        self.0
    }
}

impl ObjectId {
    /// A fresh identifier taken from `ids`.
    pub fn new(ids: &mut IdAllocator) -> (id: Self)
        ensures
            id@ == old(ids).next_value(),
            final(ids).next_value() == after(old(ids).next_value()),
    {
        ObjectId(ids.allocate())
    }

    /// The number behind the identifier.
    pub fn raw(&self) -> (n: u64)
        ensures
            n == self@,
    {
        self.0
    }
}

impl OutputId {
    /// A fresh identifier taken from `ids`.
    pub fn new(ids: &mut IdAllocator) -> (id: Self)
        ensures
            id@ == old(ids).next_value(),
            final(ids).next_value() == after(old(ids).next_value()),
    {
        OutputId(ids.allocate())
    }
}

impl TextureId {
    /// A fresh identifier taken from `ids`.
    pub fn new(ids: &mut IdAllocator) -> (id: Self)
        ensures
            id@ == old(ids).next_value(),
            final(ids).next_value() == after(old(ids).next_value()),
    {
        TextureId(ids.allocate())
    }

    /// The number behind the identifier.
    pub fn raw(&self) -> (n: u64)
        ensures
            n == self@,
    {
        self.0
    }

    /// The identifier whose number is `n`.
    pub(crate) fn from_raw(n: u64) -> (id: Self)
        ensures
            id@ == n,
    {
        TextureId(n)
    }
}

/// Law: identifiers that one counter hands out in a row differ from each
/// other, as long as the counter does not pass the largest `u64`.
pub proof fn law_successive_ids_differ(first: u64, count: nat)
    requires
        first >= 1,
        first + count <= u64::MAX,
    ensures
        forall|i: nat, j: nat| i < j <= count ==> iterate_after(first, i) != iterate_after(first, j),
        forall|i: nat| i <= count ==> iterate_after(first, i) == first + i,
    decreases count,
{
    if count > 0 {
        law_successive_ids_differ(first, (count - 1) as nat);
        assert(iterate_after(first, count) == after(iterate_after(first, (count - 1) as nat)));
    }
}

/// The counter's value after `k` allocations starting from `n`.
pub open spec fn iterate_after(n: u64, k: nat) -> u64
    decreases k,
{
    if k == 0 { n } else { after(iterate_after(n, (k - 1) as nat)) }
}

} // verus!
