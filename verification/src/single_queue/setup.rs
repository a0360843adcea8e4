//! How a backend is set up, step by step.
use crate::abi;
use crate::ipv4::Ipv4Addr;
use crate::single_queue::Error;
use vstd::prelude::*;

verus! {

/// A step of setting up a backend.
#[derive(Clone, Copy, PartialEq, Eq, Structural, Debug)]
pub enum SetupStep {
    /// Open a tap device.
    Open { ip_addr: Ipv4Addr, netmask: Ipv4Addr },
    /// Give it its address.
    SetIp { ip_addr: Ipv4Addr, netmask: Ipv4Addr },
    /// Give it its netmask.
    SetNetmask { netmask: Ipv4Addr },
    /// Bring it up.
    Enable,
    /// Have it offload what the features of the backend promise.
    SetOffload { flags: u32 },
    /// Tell it how long the header in front of every frame is.
    SetVnetHdrSize { size: i32 },
    /// Create the event that stops the backend.
    CreateKillEvent,
}

impl SetupStep {
    /// The step behind this one, if any.
    pub open spec fn after(self) -> Option<SetupStep> {
        match self {
            SetupStep::Open { ip_addr, netmask } => Some(SetupStep::SetIp { ip_addr, netmask }),
            SetupStep::SetIp { ip_addr, netmask } => Some(SetupStep::SetNetmask { netmask }),
            SetupStep::SetNetmask { netmask } => Some(SetupStep::Enable),
            SetupStep::Enable => Some(SetupStep::SetOffload { flags: 0x13 }),
            SetupStep::SetOffload { flags } => Some(SetupStep::SetVnetHdrSize { size: 12 }),
            SetupStep::SetVnetHdrSize { size } => Some(SetupStep::CreateKillEvent),
            SetupStep::CreateKillEvent => None,
        }
    }

    /// The error with which setting up ends where this step fails.
    pub open spec fn fault(self, report: String) -> Error {
        match self {
            SetupStep::Open { .. } => Error::TapOpen(report),
            SetupStep::SetIp { .. } => Error::TapSetIp(report),
            SetupStep::SetNetmask { .. } => Error::TapSetNetmask(report),
            SetupStep::Enable => Error::TapEnable(report),
            SetupStep::SetOffload { .. } => Error::TapSetOffload(report),
            SetupStep::SetVnetHdrSize { .. } => Error::TapSetVnetHdrSize(report),
            SetupStep::CreateKillEvent => Error::CreateKillEventFd,
        }
    }

    /// The first step for a tap device that is there already.
    pub fn with_tap() -> (step: SetupStep)
        ensures
            step == (SetupStep::SetOffload { flags: 0x13 }),
    {
        SetupStep::SetOffload { flags: abi::offload_flags() }
    }

    /// Goes on with the outcome of this step.
    pub fn next(self, outcome: Result<(), String>) -> (r: Result<Option<SetupStep>, Error>)
        ensures
            r == match outcome {
                Ok(_) => Ok(self.after()),
                Err(report) => Err(self.fault(report)),
            },
    {
        match outcome {
            Ok(_) => Ok(
                match self {
                    SetupStep::Open { ip_addr, netmask } => Some(
                        SetupStep::SetIp { ip_addr, netmask },
                    ),
                    SetupStep::SetIp { netmask, .. } => Some(SetupStep::SetNetmask { netmask }),
                    SetupStep::SetNetmask { .. } => Some(SetupStep::Enable),
                    SetupStep::Enable => Some(SetupStep::with_tap()),
                    SetupStep::SetOffload { .. } => Some(
                        SetupStep::SetVnetHdrSize { size: abi::vnet_hdr_len() as i32 },
                    ),
                    SetupStep::SetVnetHdrSize { .. } => Some(SetupStep::CreateKillEvent),
                    SetupStep::CreateKillEvent => None,
                },
            ),
            Err(report) => Err(
                match self {
                    SetupStep::Open { .. } => Error::TapOpen(report),
                    SetupStep::SetIp { .. } => Error::TapSetIp(report),
                    SetupStep::SetNetmask { .. } => Error::TapSetNetmask(report),
                    SetupStep::Enable => Error::TapEnable(report),
                    SetupStep::SetOffload { .. } => Error::TapSetOffload(report),
                    SetupStep::SetVnetHdrSize { .. } => Error::TapSetVnetHdrSize(report),
                    SetupStep::CreateKillEvent => Error::CreateKillEventFd,
                },
            ),
        }
    }

    /// The steps from this one to the last.
    pub open spec fn remaining(self) -> Seq<SetupStep>
        decreases self.rank(),
    {
        match self.after() {
            Some(step) => seq![self] + step.remaining(),
            None => seq![self],
        }
    }

    /// How many steps come behind this one.
    pub open spec fn rank(self) -> nat {
        match self {
            SetupStep::Open { .. } => 6,
            SetupStep::SetIp { .. } => 5,
            SetupStep::SetNetmask { .. } => 4,
            SetupStep::Enable => 3,
            SetupStep::SetOffload { .. } => 2,
            SetupStep::SetVnetHdrSize { .. } => 1,
            SetupStep::CreateKillEvent => 0,
        }
    }
}

/// A new tap device gets its address and its netmask and is brought up before it is set up as one
/// that is there already would be.
pub proof fn law_setup_order(ip_addr: Ipv4Addr, netmask: Ipv4Addr)
    ensures
        (SetupStep::Open { ip_addr, netmask }).remaining() == seq![
            SetupStep::Open { ip_addr, netmask },
            SetupStep::SetIp { ip_addr, netmask },
            SetupStep::SetNetmask { netmask },
            SetupStep::Enable,
        ] + (SetupStep::SetOffload { flags: 0x13 }).remaining(),
        (SetupStep::SetOffload { flags: 0x13 }).remaining() == seq![
            SetupStep::SetOffload { flags: 0x13 },
            SetupStep::SetVnetHdrSize { size: 12 },
            SetupStep::CreateKillEvent,
        ],
{
    reveal_with_fuel(SetupStep::remaining, 8);
    assert((SetupStep::SetOffload { flags: 0x13 }).remaining() =~= seq![
        SetupStep::SetOffload { flags: 0x13 },
        SetupStep::SetVnetHdrSize { size: 12 },
        SetupStep::CreateKillEvent,
    ]);
    assert((SetupStep::Open { ip_addr, netmask }).remaining() =~= seq![
        SetupStep::Open { ip_addr, netmask },
        SetupStep::SetIp { ip_addr, netmask },
        SetupStep::SetNetmask { netmask },
        SetupStep::Enable,
    ] + (SetupStep::SetOffload { flags: 0x13 }).remaining());
}

/// A step that fails ends setting up with the error of that step, and with what the device reported
/// of it; the kill event has no report.
pub proof fn law_each_step_has_its_error(step: SetupStep, report: String)
    ensures
        step is Open ==> step.fault(report) == Error::TapOpen(report),
        step is SetIp ==> step.fault(report) == Error::TapSetIp(report),
        step is SetNetmask ==> step.fault(report) == Error::TapSetNetmask(report),
        step is Enable ==> step.fault(report) == Error::TapEnable(report),
        step is SetOffload ==> step.fault(report) == Error::TapSetOffload(report),
        step is SetVnetHdrSize ==> step.fault(report) == Error::TapSetVnetHdrSize(report),
        step is CreateKillEvent ==> step.fault(report) == Error::CreateKillEventFd,
{
}

/// The address and the netmask that a device gets are those that it was opened for, the flags and the
/// header length are always the same, and only the kill event has no step behind it.
pub proof fn law_steps_hand_on_what_they_were_given(step: SetupStep)
    ensures
        step.after() is None <==> step is CreateKillEvent,
        step matches SetupStep::Open { ip_addr, netmask } ==> step.after() == Some(
            SetupStep::SetIp { ip_addr, netmask },
        ),
        step matches SetupStep::SetIp { ip_addr, netmask } ==> step.after() == Some(
            SetupStep::SetNetmask { netmask },
        ),
        step is SetNetmask ==> step.after() == Some(SetupStep::Enable),
        step is Enable ==> step.after() == Some(SetupStep::SetOffload { flags: 0x13 }),
        step is SetOffload ==> step.after() == Some(SetupStep::SetVnetHdrSize { size: 12 }),
        step is SetVnetHdrSize ==> step.after() == Some(SetupStep::CreateKillEvent),
{
}

} // verus!
