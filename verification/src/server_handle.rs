//! Handles to memory that a compute server manages.

use crate::device_handle::DeviceLease;
use crate::ids::{DeviceGenerationId, StreamId};
use vstd::prelude::*;

verus! {

/// Memory that a compute server manages.
pub trait ManagedMemory: Sized {
    /// What is left of the memory once a handle is bound to it.
    type Bound;

    /// New memory.
    fn new() -> Self;

    /// Whether the memory can be mutated in place without affecting other computation.
    fn can_mut(&self) -> bool;

    /// Whether both are the same memory.
    fn is_alias_of(&self, other: &Self) -> bool;

    /// Binds to the memory.
    fn binding(self) -> Self::Bound;
}

/// Server handle containing the memory handle.
pub struct Handle<M: ManagedMemory> {
    /// Memory handle.
    pub memory: M,
    /// Memory offset in bytes.
    pub offset_start: Option<u64>,
    /// Memory offset in bytes.
    pub offset_end: Option<u64>,
    /// The stream where the data was created.
    pub stream: StreamId,
    size: u64,
    lease: Option<DeviceLease>,
}

/// What a handle, or a binding, refers to.
pub struct MemoryView<M> {
    /// The memory.
    pub memory: M,
    /// Offset from the start, in bytes.
    pub offset_start: Option<u64>,
    /// Offset from the end, in bytes.
    pub offset_end: Option<u64>,
    /// The stream where the data was created.
    pub stream: StreamId,
    /// Length of the underlying buffer ignoring offsets.
    pub size: u64,
    /// The generation that is kept open.
    pub generation: Option<DeviceGenerationId>,
}

impl<M> MemoryView<M> {
    /// The offsets leave room in the buffer.
    pub open spec fn in_bounds(self) -> bool {
        offset_or_zero(self.offset_start) + offset_or_zero(self.offset_end) <= self.size
    }

    /// Number of bytes between the offsets.
    pub open spec fn used(self) -> int {
        self.size - offset_or_zero(self.offset_start) - offset_or_zero(self.offset_end)
    }

    /// Where the bytes in use begin in the buffer.
    pub open spec fn first_byte(self) -> int {
        match self.offset_start {
            Some(offset) => offset as int,
            None => 0,
        }
    }

    /// Where the bytes in use end in the buffer.
    pub open spec fn end_byte(self) -> int {
        match self.offset_end {
            Some(offset) => self.size - offset,
            None => self.size as int,
        }
    }

    /// The byte at a place of the buffer is in use.
    pub open spec fn covers(self, place: int) -> bool {
        self.first_byte() <= place < self.end_byte()
    }

    /// The same reference to other memory.
    pub open spec fn bound<B>(self, memory: B) -> MemoryView<B> {
        MemoryView {
            memory,
            offset_start: self.offset_start,
            offset_end: self.offset_end,
            stream: self.stream,
            size: self.size,
            generation: self.generation,
        }
    }
}

/// An offset, nothing where there is none.
pub open spec fn offset_or_zero(offset: Option<u64>) -> int {
    match offset {
        Some(offset) => offset as int,
        None => 0,
    }
}

/// An offset moved on.
pub open spec fn moved(offset: Option<u64>, by: u64) -> Option<u64> {
    Some((offset_or_zero(offset) + by) as u64)
}

/// The generation that an optional lease keeps open.
pub open spec fn generation_of(lease: Option<DeviceLease>) -> Option<DeviceGenerationId> {
    match lease {
        Some(lease) => lease@,
        None => None,
    }
}

impl<M: ManagedMemory> View for Handle<M> {
    type V = MemoryView<M>;

    closed spec fn view(&self) -> MemoryView<M> {
        MemoryView {
            memory: self.memory,
            offset_start: self.offset_start,
            offset_end: self.offset_end,
            stream: self.stream,
            size: self.size,
            generation: generation_of(self.lease),
        }
    }
}

impl<M: ManagedMemory> Handle<M> {
    /// Creates a new handle of the given size.
    pub fn from_memory(id: M, stream: StreamId, size: u64) -> (handle: Self)
        ensures
            handle@ == (MemoryView {
                memory: id,
                offset_start: None,
                offset_end: None,
                stream,
                size,
                generation: None,
            }),
    {
        Handle { memory: id, offset_start: None, offset_end: None, stream, size, lease: None }
    }

    /// Creates a new handle of the given size, to new memory.
    pub fn new(stream: StreamId, size: u64) -> (handle: Self)
        requires
            call_requires(M::new, ()),
        ensures
            call_ensures(M::new, (), handle@.memory),
            handle@ == (MemoryView {
                memory: handle@.memory,
                offset_start: None,
                offset_end: None,
                stream,
                size,
                generation: None,
            }),
    {
        Handle {
            memory: M::new(),
            offset_start: None,
            offset_end: None,
            stream,
            size,
            lease: None,
        }
    }

    /// Checks whether the handle can be mutated in-place without affecting other computation.
    pub fn can_mut(&self) -> (can: bool)
        requires
            call_requires(M::can_mut, (&self@.memory,)),
        ensures
            call_ensures(M::can_mut, (&self@.memory,), can),
    {
        self.memory.can_mut()
    }

    /// Returns whether both handles alias the same managed memory.
    pub fn is_alias_of(&self, other: &Self) -> (alias: bool)
        requires
            call_requires(M::is_alias_of, (&self@.memory, &other@.memory)),
        ensures
            call_ensures(M::is_alias_of, (&self@.memory, &other@.memory), alias),
    {
        self.memory.is_alias_of(&other.memory)
    }

    /// Returns the [`Binding`] corresponding to the current handle.
    pub fn binding(self) -> (binding: Binding<M::Bound>)
        requires
            call_requires(M::binding, (self@.memory,)),
        ensures
            call_ensures(M::binding, (self@.memory,), binding@.memory),
            binding@ == self@.bound(binding@.memory),
            binding@.offset_start == self@.offset_start,
            binding@.offset_end == self@.offset_end,
            binding@.stream == self@.stream,
            binding@.size == self@.size,
            binding@.generation == self@.generation,
    {
        Binding::new(
            self.memory.binding(),
            self.offset_start,
            self.offset_end,
            self.stream,
            self.size,
            self.lease,
        )
    }

    /// Add to the current offset in bytes.
    pub fn offset_start(self, offset: u64) -> (handle: Self)
        requires
            offset_or_zero(self@.offset_start) + offset <= u64::MAX,
        ensures
            handle@ == (MemoryView { offset_start: moved(self@.offset_start, offset), ..self@ }),
            handle@.first_byte() == self@.first_byte() + offset,
            handle@.end_byte() == self@.end_byte(),
    {
        let mut handle = self;
        handle.offset_start = match handle.offset_start {
            Some(value) => Some(value + offset),
            None => Some(offset),
        };
        handle
    }

    /// Add to the current offset in bytes.
    pub fn offset_end(self, offset: u64) -> (handle: Self)
        requires
            offset_or_zero(self@.offset_end) + offset <= u64::MAX,
        ensures
            handle@ == (MemoryView { offset_end: moved(self@.offset_end, offset), ..self@ }),
            handle@.first_byte() == self@.first_byte(),
            handle@.end_byte() == self@.end_byte() - offset,
    {
        let mut handle = self;
        handle.offset_end = match handle.offset_end {
            Some(value) => Some(value + offset),
            None => Some(offset),
        };
        handle
    }

    /// Convert the handle into a binding with shape and stride metadata.
    pub fn copy_descriptor(self, shape: Vec<usize>, strides: Vec<usize>, elem_size: usize) -> (
    descriptor: CopyDescriptor<M::Bound>)
        requires
            call_requires(M::binding, (self@.memory,)),
        ensures
            descriptor.shape == shape,
            descriptor.strides == strides,
            descriptor.elem_size == elem_size,
            call_ensures(M::binding, (self@.memory,), descriptor.handle@.memory),
            descriptor.handle@ == self@.bound(descriptor.handle@.memory),
            descriptor.handle@.offset_start == self@.offset_start,
            descriptor.handle@.offset_end == self@.offset_end,
            descriptor.handle@.stream == self@.stream,
            descriptor.handle@.size == self@.size,
            descriptor.handle@.generation == self@.generation,
    {
        CopyDescriptor { shape, strides, elem_size, handle: self.binding() }
    }

    /// Get the size of the handle, in bytes, accounting for offsets.
    pub fn size_in_used(&self) -> (used: u64)
        requires
            self@.in_bounds(),
        ensures
            used == self@.used(),
            used == self@.end_byte() - self@.first_byte(),
    {
        used_size(self.size, self.offset_start, self.offset_end)
    }

    /// Get the total size of the handle, in bytes.
    pub fn size(&self) -> (size: u64)
        ensures
            size == self@.size,
    {
        self.size
    }

    /// Returns the device-runner generation retained by this handle, when applicable.
    pub fn generation_id(&self) -> (id: Option<DeviceGenerationId>)
        ensures
            id == self@.generation,
    {
        match &self.lease {
            Some(lease) => lease.generation_id(),
            None => None,
        }
    }

    /// Makes the handle keep the generation of a lease open; a former lease is handed back.
    pub fn set_lease(&mut self, lease: DeviceLease) -> (former: Option<DeviceLease>)
        ensures
            final(self)@ == (MemoryView { generation: lease@, ..old(self)@ }),
            generation_of(former) == old(self)@.generation,
            final(self)@.generation == lease@,
            final(self)@.first_byte() == old(self)@.first_byte(),
            final(self)@.end_byte() == old(self)@.end_byte(),
            final(self)@.stream == old(self)@.stream,
    {
        let former = self.lease.take();
        self.lease = Some(lease);
        former
    }

    /// Makes the handle keep no generation open; its lease is handed back.
    pub fn clear_lease(&mut self) -> (former: Option<DeviceLease>)
        ensures
            final(self)@ == (MemoryView { generation: None, ..old(self)@ }),
            generation_of(former) == old(self)@.generation,
            final(self)@.generation is None,
            final(self)@.first_byte() == old(self)@.first_byte(),
            final(self)@.end_byte() == old(self)@.end_byte(),
            final(self)@.stream == old(self)@.stream,
    {
        self.lease.take()
    }
}

fn used_size(size: u64, offset_start: Option<u64>, offset_end: Option<u64>) -> (used: u64)
    requires
        offset_or_zero(offset_start) + offset_or_zero(offset_end) <= size,
    ensures
        used == size - offset_or_zero(offset_start) - offset_or_zero(offset_end),
{
    let start: u64 = match offset_start {
        Some(offset) => offset,
        None => 0,
    };
    let end: u64 = match offset_end {
        Some(offset) => offset,
        None => 0,
    };
    size - start - end
}

/// A binding represents a [`Handle`] that is bound to managed memory.
///
/// A binding is detached from a [`Handle`], meaning that it won't affect [`Handle::can_mut`].
pub struct Binding<B> {
    /// The memory that the handle is bound to.
    pub memory: B,
    /// Memory offset in bytes.
    pub offset_start: Option<u64>,
    /// Memory offset in bytes.
    pub offset_end: Option<u64>,
    /// The stream where the data was created.
    pub stream: StreamId,
    /// Length of the underlying buffer ignoring offsets.
    pub size: u64,
    lease: Option<DeviceLease>,
}

impl<B> View for Binding<B> {
    type V = MemoryView<B>;

    closed spec fn view(&self) -> MemoryView<B> {
        MemoryView {
            memory: self.memory,
            offset_start: self.offset_start,
            offset_end: self.offset_end,
            stream: self.stream,
            size: self.size,
            generation: generation_of(self.lease),
        }
    }
}

impl<B> Binding<B> {
    /// Creates a binding for managed memory.
    pub fn new(
        memory: B,
        offset_start: Option<u64>,
        offset_end: Option<u64>,
        stream: StreamId,
        size: u64,
        lease: Option<DeviceLease>,
    ) -> (binding: Self)
        ensures
            binding@ == (MemoryView {
                memory,
                offset_start,
                offset_end,
                stream,
                size,
                generation: generation_of(lease),
            }),
    {
        Binding { memory, offset_start, offset_end, stream, size, lease }
    }

    /// Get the size of the handle, in bytes, accounting for offsets.
    pub fn size_in_used(&self) -> (used: u64)
        requires
            self@.in_bounds(),
        ensures
            used == self@.used(),
            used == self@.end_byte() - self@.first_byte(),
    {
        used_size(self.size, self.offset_start, self.offset_end)
    }

    /// Get the total size of the handle, in bytes.
    pub fn size(&self) -> (size: u64)
        ensures
            size == self@.size,
    {
        self.size
    }

    /// Returns the device-runner generation retained by this binding, when applicable.
    pub fn generation_id(&self) -> (id: Option<DeviceGenerationId>)
        ensures
            id == self@.generation,
    {
        match &self.lease {
            Some(lease) => lease.generation_id(),
            None => None,
        }
    }

    /// Makes the binding keep no generation open; its lease is handed back.
    pub fn clear_lease(&mut self) -> (former: Option<DeviceLease>)
        ensures
            final(self)@ == (MemoryView { generation: None, ..old(self)@ }),
            generation_of(former) == old(self)@.generation,
            final(self)@.generation is None,
            final(self)@.first_byte() == old(self)@.first_byte(),
            final(self)@.end_byte() == old(self)@.end_byte(),
            final(self)@.stream == old(self)@.stream,
    {
        self.lease.take()
    }
}

/// A binding with shape and stride metadata.
pub struct CopyDescriptor<B> {
    /// The bound handle.
    pub handle: Binding<B>,
    /// The size of each dimension.
    pub shape: Vec<usize>,
    /// The distance between neighbours in each dimension.
    pub strides: Vec<usize>,
    /// The size of an element, in bytes.
    pub elem_size: usize,
}

/// A handle, and a binding, are seen as their fields say.
proof fn law_fields_are_what_is_seen<M: ManagedMemory>(
    handle: Handle<M>,
    binding: Binding<M::Bound>,
)
    ensures
        handle@.memory == handle.memory,
        handle@.offset_start == handle.offset_start,
        handle@.offset_end == handle.offset_end,
        handle@.stream == handle.stream,
        handle@.size == handle.size,
        binding@.memory == binding.memory,
        binding@.offset_start == binding.offset_start,
        binding@.offset_end == binding.offset_end,
        binding@.stream == binding.stream,
        binding@.size == binding.size,
{
}

/// A binding refers to the bytes that its handle refers to, no others, on the same stream, in a
/// buffer of the same size, and keeps the same generation open.
pub proof fn law_binding_covers_the_same_bytes<M, B>(view: MemoryView<M>, memory: B)
    ensures
        forall|place: int| #[trigger]
            view.bound(memory).covers(place) <==> view.first_byte() <= place < view.end_byte(),
        view.bound(memory).first_byte() == view.first_byte(),
        view.bound(memory).end_byte() == view.end_byte(),
        view.bound(memory).in_bounds() <==> view.first_byte() <= view.end_byte(),
        view.bound(memory).used() == view.end_byte() - view.first_byte(),
        view.bound(memory).size == view.size,
        view.bound(memory).stream == view.stream,
        view.bound(memory).generation == view.generation,
        view.bound(memory).memory == memory,
{
}

/// Moving the start and then binding refers to the bytes after the moved start; moving the end and
/// then binding, to those before the moved end.
pub proof fn law_offsets_cut_their_own_side<M: ManagedMemory>(
    handle: Handle<M>,
    offset: u64,
    later: Handle<M>,
    shorter: Handle<M>,
    late_binding: Binding<M::Bound>,
    short_binding: Binding<M::Bound>,
)
    requires
        call_ensures(Handle::offset_start, (handle, offset), later),
        call_ensures(Handle::offset_end, (handle, offset), shorter),
        call_ensures(Handle::binding, (later,), late_binding),
        call_ensures(Handle::binding, (shorter,), short_binding),
    ensures
        forall|place: int| #[trigger]
            late_binding@.covers(place) <==> handle@.covers(place) && handle@.first_byte() + offset
                <= place,
        forall|place: int| #[trigger]
            short_binding@.covers(place) <==> handle@.covers(place) && place < handle@.end_byte()
                - offset,
        late_binding@.stream == handle@.stream,
        short_binding@.stream == handle@.stream,
        late_binding@.size == handle@.size,
        short_binding@.size == handle@.size,
{
}

/// A descriptor says how the elements lie, as it is told, in the bytes that the handle refers to.
pub proof fn law_descriptor_lays_out_the_same_bytes<M: ManagedMemory>(
    handle: Handle<M>,
    shape: Vec<usize>,
    strides: Vec<usize>,
    elem_size: usize,
    descriptor: CopyDescriptor<M::Bound>,
)
    requires
        call_ensures(Handle::copy_descriptor, (handle, shape, strides, elem_size), descriptor),
    ensures
        descriptor.shape@ == shape@,
        descriptor.strides@ == strides@,
        descriptor.elem_size == elem_size,
        forall|place: int| #[trigger]
            descriptor.handle@.covers(place) <==> handle@.covers(place),
        descriptor.handle@.stream == handle@.stream,
        descriptor.handle@.size == handle@.size,
        call_ensures(M::binding, (handle@.memory,), descriptor.handle@.memory),
{
}

/// Moving an offset twice is moving it by both amounts at once, and takes as much off the size in
/// use.
pub proof fn law_offsets_add_up<M>(view: MemoryView<M>, first: u64, second: u64)
    requires
        offset_or_zero(view.offset_start) + first + second <= u64::MAX,
    ensures
        moved(moved(view.offset_start, first), second) == moved(
            view.offset_start,
            (first + second) as u64,
        ),
        (MemoryView { offset_start: moved(view.offset_start, first), ..view }).used()
            == view.used() - first,
{
}

} // verus!
