//! Storage of one unit of work between the moment it is queued and the moment it runs.

use vstd::prelude::*;

verus! {

/// The maximum size of a closure that can be stored without heap allocation.
pub const GLOBAL_TASK_MAX_SIZE: usize = 4096;

/// The maximum size of a closure that can be stored using inlined memory.
pub const INLINE_TASK_MAX_SIZE: usize = 40;

/// The alignment of the inlined memory and of an arena slot.
pub const SLOT_ALIGN: usize = 64;

/// Where a closure is stored, by its size and its alignment.
#[derive(Clone, Copy, Debug, PartialEq, Eq, Structural)]
pub enum TaskPlacement {
    /// In the memory of the task itself.
    Inline,
    /// In the arena slot of the task.
    Arena,
    /// On the heap, behind a pointer that is stored inline.
    Boxed,
}

impl TaskPlacement {
    /// The placement of a closure of `size` bytes aligned to `align` bytes.
    pub open spec fn for_layout_spec(size: nat, align: nat) -> TaskPlacement {
        if align > SLOT_ALIGN {
            TaskPlacement::Boxed
        } else if size <= INLINE_TASK_MAX_SIZE {
            TaskPlacement::Inline
        } else if size <= GLOBAL_TASK_MAX_SIZE {
            TaskPlacement::Arena
        } else {
            TaskPlacement::Boxed
        }
    }

    /// Both checks are needed: a slot that is large enough may still be aligned to less than the
    /// closure asks for. A heap allocation satisfies any alignment.
    pub fn for_layout(size: usize, align: usize) -> (placement: TaskPlacement)
        ensures
            placement == TaskPlacement::for_layout_spec(size as nat, align as nat),
            placement is Boxed <==> align > SLOT_ALIGN || size > GLOBAL_TASK_MAX_SIZE,
            placement is Inline <==> align <= SLOT_ALIGN && size <= INLINE_TASK_MAX_SIZE,
    {
        let fits_inline = size <= INLINE_TASK_MAX_SIZE && align <= SLOT_ALIGN;
        let fits_arena = size <= GLOBAL_TASK_MAX_SIZE && align <= SLOT_ALIGN;

        if fits_inline {
            TaskPlacement::Inline
        } else if fits_arena {
            TaskPlacement::Arena
        } else {
            TaskPlacement::Boxed
        }
    }
}

/// One unit of work, or none.
///
/// The closure leaves the task once: to be run, or to be dropped.
pub struct Task<F> {
    payload: Option<F>,
    placement: TaskPlacement,
}

impl<F> View for Task<F> {
    type V = Option<F>;

    /// The closure that waits in the task.
    closed spec fn view(&self) -> Option<F> {
        self.payload
    }
}

impl<F> Task<F> {
    /// The placement recorded for the last closure.
    pub closed spec fn placement_spec(&self) -> TaskPlacement {
        self.placement
    }

    /// Creates a task that holds nothing: running it does nothing.
    pub fn new() -> (task: Self)
        ensures
            task@ is None,
            task.placement_spec() == TaskPlacement::Inline,
    {
        Task { payload: None, placement: TaskPlacement::Inline }
    }

    /// Stores `func`, and records where its size and alignment place it.
    pub fn init(&mut self, func: F)
        ensures
            final(self)@ == Some(func),
            final(self).placement_spec() == TaskPlacement::for_layout_spec(
                vstd::layout::size_of::<F>(),
                vstd::layout::align_of::<F>(),
            ),
    {
        self.placement =
        TaskPlacement::for_layout(core::mem::size_of::<F>(), core::mem::align_of::<F>());
        self.payload = Some(func);
    }

    /// Makes the task do nothing when it is run.
    pub fn init_noop(&mut self)
        ensures
            final(self)@ is None,
            final(self).placement_spec() == TaskPlacement::Inline,
    {
        self.payload = None;
        self.placement = TaskPlacement::Inline;
    }

    /// Where the last closure was placed.
    pub fn placement(&self) -> (placement: TaskPlacement)
        ensures
            placement == self.placement_spec(),
    {
        self.placement
    }

    /// Hands out the closure to be run, at most once per initialization.
    pub fn run(&mut self) -> (func: Option<F>)
        ensures
            func == old(self)@,
            final(self)@ is None,
            final(self).placement_spec() == old(self).placement_spec(),
    {
        self.payload.take()
    }

    /// Drops an initialized task without running it.
    pub fn discard(&mut self)
        ensures
            final(self)@ is None,
            final(self).placement_spec() == old(self).placement_spec(),
    {
        self.payload = None;
    }
}

/// The tasks of one queue buffer.
pub struct TaskBuffer<F> {
    tasks: Vec<Task<F>>,
}

impl<F> View for TaskBuffer<F> {
    type V = Seq<Option<F>>;

    /// What waits in each slot.
    closed spec fn view(&self) -> Seq<Option<F>> {
        Seq::new(self.tasks@.len(), |i: int| self.tasks@[i]@)
    }
}

impl<F> TaskBuffer<F> {
    /// Creates a buffer of `len` tasks that hold nothing.
    pub fn new(len: usize) -> (buffer: Self)
        ensures
            buffer@ == Seq::new(len as nat, |i: int| None::<F>),
    {
        let mut tasks: Vec<Task<F>> = Vec::new();
        let mut index: usize = 0;
        while index < len
            invariant
                index <= len,
                tasks@.len() == index,
                forall|i: int| 0 <= i < index ==> (#[trigger] tasks@[i])@ is None,
            decreases len - index,
        {
            tasks.push(Task::new());
            index = index + 1;
        }
        let buffer = TaskBuffer { tasks };
        assert(buffer@ =~= Seq::new(len as nat, |i: int| None::<F>));
        buffer
    }

    /// Stores a closure, or nothing, in a slot.
    pub fn set(&mut self, index: usize, func: Option<F>)
        requires
            index < old(self)@.len(),
        ensures
            final(self)@ == old(self)@.update(index as int, func),
    {
        match func {
            Some(func) => self.tasks[index].init(func),
            None => self.tasks[index].init_noop(),
        }
        assert(self@ =~= old(self)@.update(index as int, func));
    }

    /// Takes the closure of a slot, to be run.
    pub fn run(&mut self, index: usize) -> (func: Option<F>)
        requires
            index < old(self)@.len(),
        ensures
            func == old(self)@[index as int],
            final(self)@ == old(self)@.update(index as int, None),
    {
        let func = self.tasks[index].run();
        assert(self@ =~= old(self)@.update(index as int, None));
        func
    }
}

/// A closure is stored where it fits: the memory of the task takes 40 bytes and an arena slot 4096,
/// both aligned to 64. Whatever is larger or needs a coarser alignment goes to the heap, and
/// nothing else does.
pub proof fn law_closure_fits_where_it_is_placed(size: nat, align: nat)
    ensures
        ({
            let placement = TaskPlacement::for_layout_spec(size, align);
            &&& placement is Inline <==> size <= 40 && align <= 64
            &&& placement is Arena <==> 40 < size <= 4096 && align <= 64
            &&& placement is Boxed <==> size > 4096 || align > 64
        }),
{
}

/// A closure that is smaller and needs no coarser alignment is placed no farther away.
pub proof fn law_smaller_closure_is_placed_no_farther(
    size: nat,
    align: nat,
    smaller: nat,
    looser: nat,
)
    requires
        smaller <= size,
        looser <= align,
    ensures
        TaskPlacement::for_layout_spec(size, align) is Inline ==> TaskPlacement::for_layout_spec(
            smaller,
            looser,
        ) is Inline,
        TaskPlacement::for_layout_spec(size, align) is Arena ==> !(TaskPlacement::for_layout_spec(
            smaller,
            looser,
        ) is Boxed),
{
}

} // verus!
