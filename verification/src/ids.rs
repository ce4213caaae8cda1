//! Identities of devices, runners, generations, services and streams.

use vstd::prelude::*;

verus! {

/// A device: a kind assigned by its runtime, and an index among the devices of that kind.
#[derive(Clone, Copy, Debug, Hash, PartialEq, Eq, Structural)]
pub struct DeviceId {
    /// The kind of device.
    pub type_id: u16,
    /// The index of the device among those of its kind.
    pub index_id: u16,
}

impl DeviceId {
    /// Creates a device id.
    pub fn new(type_id: u16, index_id: u16) -> (id: Self)
        ensures
            id == (DeviceId { type_id, index_id }),
    {
        DeviceId { type_id, index_id }
    }
}

/// Where a service stands in the flow of work between services.
///
/// Upstream services produce work that downstream services consume.
#[derive(Clone, Copy, Debug, Hash, PartialEq, Eq, Structural)]
pub enum DeviceServiceStage {
    /// Produces work for downstream services.
    Upstream,
    /// Consumes the work of upstream services.
    Downstream,
}

impl DeviceServiceStage {
    /// Position of the stage in the flow of work.
    pub open spec fn rank_spec(self) -> u8 {
        match self {
            DeviceServiceStage::Upstream => 0u8,
            DeviceServiceStage::Downstream => 1u8,
        }
    }

    /// Position of the stage in the flow of work.
    pub fn rank(self) -> (rank: u8)
        ensures
            rank == self.rank_spec(),
            rank == 0 <==> self is Upstream,
            rank == 1 <==> self is Downstream,
    {
        match self {
            DeviceServiceStage::Upstream => 0,
            DeviceServiceStage::Downstream => 1,
        }
    }
}

/// One runner thread: the services of one stage of one device share it.
#[derive(Clone, Copy, Debug, Hash, PartialEq, Eq, Structural)]
pub struct RunnerId {
    /// The device that the runner serves.
    pub device: DeviceId,
    /// The stage of the services that the runner hosts.
    pub stage: DeviceServiceStage,
}

/// Opaque identity for one device-runner generation.
#[derive(Clone, Copy, Debug, Hash, PartialEq, Eq, Structural)]
pub struct DeviceGenerationId(pub u64);

impl DeviceGenerationId {
    /// Wraps the number of a generation.
    pub fn new(value: u64) -> (id: Self)
        ensures
            id.0 == value,
    {
        DeviceGenerationId(value)
    }
}

/// A service: its device, and the number of its concrete type.
#[derive(Clone, Copy, Debug, Hash, PartialEq, Eq, Structural)]
pub struct ServiceId {
    /// The device that hosts the service.
    pub device: DeviceId,
    /// The number of the concrete service type.
    pub service_type: u64,
}

/// A stream of work on a device.
#[derive(Clone, Copy, Debug, Hash, PartialEq, Eq, Structural)]
pub struct StreamId {
    /// The number of the stream.
    pub value: u64,
}

} // verus!
