use cubecl::{
    Binding, DeviceId, DeviceLease, DeviceLeaseRelease, DeviceRuntime, DeviceServiceStage, Handle,
    ManagedMemory, RunnerId, StreamId,
};
use std::rc::Rc;

#[derive(Clone)]
struct Memory(Rc<u32>);

impl ManagedMemory for Memory {
    type Bound = String;

    fn new() -> Self {
        Memory(Rc::new(0))
    }

    fn can_mut(&self) -> bool {
        Rc::strong_count(&self.0) == 1
    }

    fn is_alias_of(&self, other: &Self) -> bool {
        Rc::ptr_eq(&self.0, &other.0)
    }

    fn binding(self) -> String {
        format!("bound-{}", self.0)
    }
}

const STREAM: StreamId = StreamId { value: 3 };

#[test]
fn a_new_handle_covers_its_memory() {
    let handle: Handle<Memory> = Handle::new(STREAM, 64);
    assert_eq!(handle.size(), 64);
    assert_eq!(handle.size_in_used(), 64);
    assert_eq!(handle.offset_start, None);
    assert_eq!(handle.offset_end, None);
    assert!(handle.stream == STREAM);
    assert_eq!(handle.generation_id(), None);
    assert!(handle.can_mut());
}

#[test]
fn offsets_add_up_and_shrink_the_size_in_use() {
    let handle: Handle<Memory> = Handle::new(STREAM, 64);
    let handle = handle.offset_start(4).offset_start(6).offset_end(10).offset_end(1);
    assert_eq!(handle.offset_start, Some(10));
    assert_eq!(handle.offset_end, Some(11));
    assert_eq!(handle.size(), 64);
    assert_eq!(handle.size_in_used(), 43);
    let binding = handle.binding();
    assert_eq!(binding.size_in_used(), 43);
    assert_eq!(binding.size(), 64);
    assert_eq!(binding.memory, "bound-0");
    assert!(binding.stream == STREAM);
}

#[test]
fn handles_to_the_same_memory_are_aliases() {
    let memory = Memory(Rc::new(5));
    let first = Handle::from_memory(memory.clone(), STREAM, 8);
    let second = Handle::from_memory(memory, STREAM, 8);
    let third: Handle<Memory> = Handle::new(STREAM, 8);
    assert!(first.is_alias_of(&second));
    assert!(!first.is_alias_of(&third));
    assert!(!first.can_mut());
    drop(second);
    assert!(first.can_mut());
}

#[test]
fn a_descriptor_keeps_shape_and_strides() {
    let handle = Handle::from_memory(Memory(Rc::new(7)), STREAM, 24).offset_start(4);
    let descriptor = handle.copy_descriptor(vec![2, 3], vec![3, 1], 4);
    assert_eq!(descriptor.shape, vec![2, 3]);
    assert_eq!(descriptor.strides, vec![3, 1]);
    assert_eq!(descriptor.elem_size, 4);
    assert_eq!(descriptor.handle.memory, "bound-7");
    assert_eq!(descriptor.handle.size_in_used(), 20);
}

#[test]
fn a_binding_takes_the_lease_over() {
    let mut runtime = DeviceRuntime::new(false);
    let runner = RunnerId {
        device: DeviceId { type_id: 0, index_id: 1 },
        stage: DeviceServiceStage::Downstream,
    };
    let client = runtime.start(runner);
    let id = client.generation_id();
    let mut handle: Handle<Memory> = Handle::new(STREAM, 8);
    assert!(handle.set_lease(DeviceLease::channel(runtime.lease(id))).is_none());
    assert_eq!(handle.generation_id(), Some(id));
    assert_eq!(runtime.generation(id).unwrap().external_count, 2);

    // The binding takes the lease over, and keeps the generation open.
    let mut binding = handle.binding();
    assert_eq!(binding.generation_id(), Some(id));
    let released = DeviceLease::channel(client).release(&mut runtime, None);
    assert_eq!(released.outcome.unwrap().unwrap(), DeviceLeaseRelease::Shared);

    let lease = binding.clear_lease().unwrap();
    assert_eq!(binding.generation_id(), None);
    assert!(binding.clear_lease().is_none());
    runtime.set_join_handle(id);
    let released = lease.release(&mut runtime, None);
    assert!(released.outcome.is_none());
    assert!(released.step.unwrap().stop_channel);
}

#[test]
fn a_lease_that_is_replaced_is_handed_back() {
    let mut runtime = DeviceRuntime::new(false);
    let runner = RunnerId {
        device: DeviceId { type_id: 0, index_id: 1 },
        stage: DeviceServiceStage::Downstream,
    };
    let first = DeviceLease::channel(runtime.start(runner));
    let second = DeviceLease::channel(runtime.start(runner));
    let (first_id, second_id) = (first.generation_id(), second.generation_id());
    let mut handle: Handle<Memory> = Handle::new(STREAM, 8);
    handle.set_lease(first);
    assert_eq!(handle.set_lease(second).unwrap().generation_id(), first_id);
    assert_eq!(handle.generation_id(), second_id);
    assert_eq!(handle.clear_lease().unwrap().generation_id(), second_id);
    assert_eq!(handle.generation_id(), None);
    let binding = Binding::new(1u8, Some(1), Some(2), STREAM, 10, Some(DeviceLease::stateless()));
    assert_eq!(binding.generation_id(), None);
    assert_eq!(binding.size_in_used(), 7);
}
