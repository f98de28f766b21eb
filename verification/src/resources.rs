use vstd::prelude::*;
use crate::devices::DeviceRule;

verus! {

/// Limits on processor time.
#[derive(Debug, Clone, Copy, PartialEq, Eq, Structural)]
pub struct LinuxCpu {
    /// The share of processor time, relative to other groups.
    pub shares: Option<u64>,
    /// The processor time, in microseconds, that the group may use in one
    /// period; zero or less for no limit.
    pub quota: Option<i64>,
    /// The length of a period in microseconds.
    pub period: Option<u64>,
}

/// Limits on memory, in bytes; -1 for no limit.
#[derive(Debug, Clone, Copy, PartialEq, Eq, Structural)]
pub struct LinuxMemory {
    /// The most memory that the group may use.
    pub limit: Option<i64>,
    /// The memory that the group keeps under pressure.
    pub reservation: Option<i64>,
    /// The most memory and swap that the group may use.
    pub swap: Option<i64>,
}

/// The limit on the number of processes; zero or less for no limit.
#[derive(Debug, Clone, Copy, PartialEq, Eq, Structural)]
pub struct LinuxPids {
    /// The most processes that the group may hold.
    pub limit: i64,
}

/// A limit on the rate at which the group may use one block device.
#[derive(Debug, Clone, Copy, PartialEq, Eq, Structural)]
pub struct ThrottleDevice {
    /// The major number of the device.
    pub major: i64,
    /// The minor number of the device.
    pub minor: i64,
    /// The rate, in bytes or in operations a second.
    pub rate: u64,
}

/// Limits on block devices.
#[derive(Debug, Clone, PartialEq, Eq)]
pub struct LinuxBlockIo {
    /// The weight of the group among its siblings.
    pub weight: Option<u16>,
    /// The bytes a second that may be read, device by device.
    pub throttle_read_bps_device: Vec<ThrottleDevice>,
    /// The bytes a second that may be written, device by device.
    pub throttle_write_bps_device: Vec<ThrottleDevice>,
    /// The reads a second, device by device.
    pub throttle_read_iops_device: Vec<ThrottleDevice>,
    /// The writes a second, device by device.
    pub throttle_write_iops_device: Vec<ThrottleDevice>,
}

/// The limit on huge pages of one size.
#[derive(Debug, Clone, PartialEq, Eq)]
pub struct HugepageLimit {
    /// The size of the pages as the kernel names it, such as `2MB`.
    pub page_size: String,
    /// The most bytes in pages of that size that the group may use.
    pub limit: i64,
}

/// The priority of the group's traffic on one network interface.
#[derive(Debug, Clone, PartialEq, Eq)]
pub struct InterfacePriority {
    /// The name of the interface.
    pub name: String,
    /// The priority.
    pub priority: u32,
}

/// The marking of the group's network packets.
#[derive(Debug, Clone, PartialEq, Eq)]
pub struct LinuxNetwork {
    /// The class with which the packets are tagged.
    pub class_id: Option<u32>,
    /// The priorities of the traffic, interface by interface.
    pub priorities: Vec<InterfacePriority>,
}

/// The limits on what the group may take of one device for remote direct
/// memory access.
#[derive(Debug, Clone, PartialEq, Eq)]
pub struct RdmaLimit {
    /// The name of the device.
    pub device: String,
    /// The most handles that the group may open.
    pub hca_handles: Option<u32>,
    /// The most objects that the group may create.
    pub hca_objects: Option<u32>,
}

/// What is asked of a control group. A manager reads it and never changes
/// it; what is not set is left as it is.
#[derive(Debug, Clone, PartialEq, Eq)]
pub struct LinuxResources {
    /// The device rules, which follow the rules that every container gets.
    pub devices: Option<Vec<DeviceRule>>,
    /// The limits on memory.
    pub memory: Option<LinuxMemory>,
    /// The limits on processor time.
    pub cpu: Option<LinuxCpu>,
    /// The limit on the number of processes.
    pub pids: Option<LinuxPids>,
    /// The limits on block devices.
    pub block_io: Option<LinuxBlockIo>,
    /// The limits on huge pages, size by size.
    pub hugepage_limits: Option<Vec<HugepageLimit>>,
    /// The marking of network packets.
    pub network: Option<LinuxNetwork>,
    /// The limits on remote direct memory access, device by device.
    pub rdma: Option<Vec<RdmaLimit>>,
}

impl LinuxResources {
    /// Nothing is asked.
    pub open spec fn is_unset(&self) -> bool {
        &&& self.devices is None
        &&& self.memory is None
        &&& self.cpu is None
        &&& self.pids is None
        &&& self.block_io is None
        &&& self.hugepage_limits is None
        &&& self.network is None
        &&& self.rdma is None
    }

    /// Whether nothing is asked.
    pub fn asks_nothing(&self) -> (b: bool)
        ensures
            b == self.is_unset(),
    {
        self.devices.is_none() && self.memory.is_none() && self.cpu.is_none()
            && self.pids.is_none() && self.block_io.is_none() && self.hugepage_limits.is_none()
            && self.network.is_none() && self.rdma.is_none()
    }

    /// The descriptor that asks nothing.
    pub fn unset() -> (r: LinuxResources)
        ensures
            r.is_unset(),
    {
        LinuxResources {
            devices: None,
            memory: None,
            cpu: None,
            pids: None,
            block_io: None,
            hugepage_limits: None,
            network: None,
            rdma: None,
        }
    }
}

} // verus!
