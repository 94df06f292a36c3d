//! The OCI runtime spec's process and resource types, as plain data.
use std::collections::HashMap;

use vstd::prelude::*;

verus! {

#[derive(Debug)]
pub struct BoxSize {
    pub height: Option<usize>,
    pub width: Option<usize>,
}

#[derive(Debug)]
pub struct User {
    pub uid: Option<u32>,
    pub gid: Option<u32>,
    pub additional_gids: Option<Vec<u32>>,
    pub username: Option<String>,
}

#[derive(Debug)]
pub struct LinuxCapabilities {
    pub bounding: Option<Vec<String>>,
    pub effective: Option<Vec<String>>,
    pub inheritable: Option<Vec<String>>,
    pub permitted: Option<Vec<String>>,
    pub ambient: Option<Vec<String>>,
}

#[derive(Debug)]
pub struct POSIXRlimit {
    pub limit_type: Option<String>,
    pub hard: Option<u64>,
    pub soft: Option<u64>,
}

#[derive(Debug)]
pub struct LinuxDeviceCgroup {
    pub allow: Option<bool>,
    pub device_type: Option<String>,
    pub major: Option<i64>,
    pub minor: Option<i64>,
    pub access: Option<String>,
}

#[derive(Debug)]
pub struct LinuxMemory {
    pub limit: Option<i64>,
    pub reservation: Option<i64>,
    pub swap: Option<i64>,
    pub kernel: Option<i64>,
    pub kernel_tcp: Option<i64>,
    pub swappiness: Option<u64>,
    pub disable_oom_killer: Option<bool>,
}

#[derive(Debug)]
pub struct LinuxCPU {
    pub shares: Option<u64>,
    pub quota: Option<i64>,
    pub period: Option<u64>,
    pub realtime_runtime: Option<i64>,
    pub realtime_period: Option<u64>,
    pub cpus: Option<String>,
    pub mems: Option<String>,
}

#[derive(Debug)]
pub struct LinuxPids {
    pub limit: Option<i64>,
}

#[derive(Debug)]
pub struct LinuxThrottleDevice {
    pub major: Option<i64>,
    pub minor: Option<i64>,
    pub rate: Option<u64>,
}

#[derive(Debug)]
pub struct LinuxWeightDevice {
    pub major: Option<i64>,
    pub minor: Option<i64>,
    pub weight: Option<u16>,
    pub leaf_weight: Option<u16>,
}

#[derive(Debug)]
pub struct LinuxBlockIO {
    pub weight: Option<u16>,
    pub leaf_weight: Option<u16>,
    pub weight_device: Option<Vec<LinuxWeightDevice>>,
    pub throttle_read_bps_device: Option<Vec<LinuxThrottleDevice>>,
    pub throttle_write_bps_device: Option<Vec<LinuxThrottleDevice>>,
    pub throttle_read_iops_device: Option<Vec<LinuxThrottleDevice>>,
    pub throttle_write_iops_device: Option<Vec<LinuxThrottleDevice>>,
}

#[derive(Debug)]
pub struct LinuxHugepageLimit {
    pub page_size: Option<String>,
    pub limit: Option<u64>,
}

#[derive(Debug)]
pub struct LinuxInterfacePriority {
    pub name: Option<String>,
    pub priority: Option<u32>,
}

#[derive(Debug)]
pub struct LinuxNetwork {
    pub class_id: Option<u32>,
    pub priorities: Option<Vec<LinuxInterfacePriority>>,
}

#[derive(Debug)]
pub struct LinuxRdma {
    pub hca_handles: Option<u32>,
    pub hca_objects: Option<u32>,
}

#[derive(Debug)]
pub struct LinuxResources {
    pub devices: Option<Vec<LinuxDeviceCgroup>>,
    pub memory: Option<LinuxMemory>,
    pub cpu: Option<LinuxCPU>,
    pub pids: Option<LinuxPids>,
    pub block_io: Option<LinuxBlockIO>,
    pub hugepage_limits: Option<Vec<LinuxHugepageLimit>>,
    pub network: Option<LinuxNetwork>,
    pub rdma: Option<HashMap<String, LinuxRdma>>,
}

} // verus!
