//! A backend with one receive queue and one transmit queue.
pub mod backend;
pub mod config;
pub mod flow;
pub mod laws;
pub mod setup;

use vstd::prelude::*;

verus! {

/// Why a backend failed. Where a tap device is the reason, with what the device reported.
#[derive(Debug)]
pub enum Error {
    /// Failed to activate device.
    BadActivate,
    /// Failed to create kill eventfd
    CreateKillEventFd,
    /// Failed to add event.
    EpollCtl(std::io::Error),
    /// Fail to wait event.
    EpollWait(std::io::Error),
    /// Failed to create EventFd.
    EpollCreateFd,
    /// Failed to read Tap.
    FailedReadTap,
    /// Failed to signal used queue.
    FailedSignalingUsedQueue,
    /// Invalid vring address.
    InvalidVringAddr,
    /// No vring call fd to notify.
    NoVringCallFdNotify,
    /// No memory while handling tx.
    NoMemoryForTx,
    /// Failed to parse sock parameter.
    ParseSockParam,
    /// Failed to parse ip parameter.
    ParseIpParam,
    /// Failed to parse mask parameter.
    ParseMaskParam,
    /// Open tap device failed.
    TapOpen(String),
    /// Setting tap IP failed.
    TapSetIp(String),
    /// Setting tap netmask failed.
    TapSetNetmask(String),
    /// Setting tap interface offload flags failed.
    TapSetOffload(String),
    /// Setting vnet header size failed.
    TapSetVnetHdrSize(String),
    /// Enabling tap interface failed.
    TapEnable(String),
}

} // verus!
