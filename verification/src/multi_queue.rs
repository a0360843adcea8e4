//! A backend with queue pairs, a tap device for each, and a worker for each tap device.
//!
//! A kick is reported by the place of its vring among all, and a worker holds two vrings. So kicks are
//! handled for the first queue pair alone.
pub mod backend;
pub mod config;
pub mod flow;
pub mod laws;
pub mod worker;

use crate::ipv4::{AddrKind, AddrParseError};
use vstd::prelude::*;
use vstd::string::StringExecFns;

verus! {

/// Why a backend failed. Where a tap device is the reason, with what the device reported.
#[derive(Debug)]
pub enum Error {
    /// Failed to activate device.
    BadActivate,
    /// Failed to create kill eventfd
    CreateKillEventFd(std::io::Error),
    /// Failed to create EventFd.
    EpollCreateFd(std::io::Error),
    /// Failed to add event.
    EpollCtl(std::io::Error),
    /// Fail to wait event.
    EpollWait(std::io::Error),
    /// Failed to read Tap.
    FailedReadTap,
    /// Failed register listener for vring.
    FailedRegisterListener,
    /// Failed unregister listener for vring.
    FailedUnRegisterListener,
    /// Failed to read worker reset event.
    FailedReadWorkerReset,
    /// Failed to signal used queue.
    FailedSignalingUsedQueue,
    /// Failed to update memory.
    FailedUpdateMemory,
    /// Failed to handle event other than input event.
    HandleEventNotEpollIn,
    /// Failed to read the event from kick EventFd.
    HandleEventReadKick,
    /// Failed to handle unknown event.
    HandleEventUnknownEvent,
    /// Invalid vring address.
    InvalidVringAddr,
    /// No vring call fd to notify.
    NoVringCallFdNotify,
    /// No memory configured.
    NoMemoryConfigured,
    /// Failed to parse sock parameter.
    ParseSockParam,
    /// Failed to parse ip parameter.
    ParseIpParam(AddrParseError),
    /// Failed to parse mask parameter.
    ParseMaskParam(AddrParseError),
    /// Failed to parse queue number.
    ParseQueueNumParam(std::num::ParseIntError),
    /// Failed to parse queue size.
    ParseQueueSizeParam(std::num::ParseIntError),
    /// Open tap device failed.
    OpenTap(String),
}

/// The text of a number that could not be read, as `<std::num::ParseIntError as std::fmt::Debug>`
/// writes it.
pub uninterp spec fn int_error_text(e: std::num::ParseIntError) -> Seq<char>;

/// `<std::num::ParseIntError as std::fmt::Debug>::fmt`: what it writes is decided by the error alone.
#[verifier::external_body]
fn write_int_error(e: &std::num::ParseIntError) -> (text: String)
    ensures
        text@ == int_error_text(*e),
{
    format!("{:?}", e)
}

/// `<std::io::Error as std::fmt::Debug>::fmt`. What it writes is left open: the operating system has
/// a part in it.
#[verifier::external_body]
fn write_io_error(e: &std::io::Error) -> (text: String) {
    format!("{:?}", e)
}

impl Error {
    /// The name of the error.
    pub open spec fn name(self) -> Seq<char> {
        match self {
            Error::BadActivate => "BadActivate"@,
            Error::CreateKillEventFd(_) => "CreateKillEventFd"@,
            Error::EpollCreateFd(_) => "EpollCreateFd"@,
            Error::EpollCtl(_) => "EpollCtl"@,
            Error::EpollWait(_) => "EpollWait"@,
            Error::FailedReadTap => "FailedReadTap"@,
            Error::FailedRegisterListener => "FailedRegisterListener"@,
            Error::FailedUnRegisterListener => "FailedUnRegisterListener"@,
            Error::FailedReadWorkerReset => "FailedReadWorkerReset"@,
            Error::FailedSignalingUsedQueue => "FailedSignalingUsedQueue"@,
            Error::FailedUpdateMemory => "FailedUpdateMemory"@,
            Error::HandleEventNotEpollIn => "HandleEventNotEpollIn"@,
            Error::HandleEventReadKick => "HandleEventReadKick"@,
            Error::HandleEventUnknownEvent => "HandleEventUnknownEvent"@,
            Error::InvalidVringAddr => "InvalidVringAddr"@,
            Error::NoVringCallFdNotify => "NoVringCallFdNotify"@,
            Error::NoMemoryConfigured => "NoMemoryConfigured"@,
            Error::ParseSockParam => "ParseSockParam"@,
            Error::ParseIpParam(_) => "ParseIpParam"@,
            Error::ParseMaskParam(_) => "ParseMaskParam"@,
            Error::ParseQueueNumParam(_) => "ParseQueueNumParam"@,
            Error::ParseQueueSizeParam(_) => "ParseQueueSizeParam"@,
            Error::OpenTap(_) => "OpenTap"@,
        }
    }

    /// Whether the error holds a reason.
    pub open spec fn holds_reason(self) -> bool {
        self is CreateKillEventFd || self is EpollCreateFd || self is EpollCtl || self is EpollWait
            || self is ParseIpParam || self is ParseMaskParam || self is ParseQueueNumParam
            || self is ParseQueueSizeParam || self is OpenTap
    }

    /// The text of the reason, unless it is an error of the operating system.
    pub open spec fn reason(self) -> Option<Seq<char>> {
        match self {
            Error::ParseIpParam(AddrParseError(AddrKind::Ipv4)) => Some("AddrParseError(Ipv4)"@),
            Error::ParseMaskParam(AddrParseError(AddrKind::Ipv4)) => Some("AddrParseError(Ipv4)"@),
            Error::ParseQueueNumParam(e) => Some(int_error_text(e)),
            Error::ParseQueueSizeParam(e) => Some(int_error_text(e)),
            Error::OpenTap(report) => Some(report@),
            _ => None,
        }
    }

    /// The text of the error, where the text of its reason is `reason`.
    pub open spec fn message(self, reason: Seq<char>) -> Seq<char> {
        if self.holds_reason() {
            "vhost_user_net_error: "@ + self.name() + "("@ + reason + ")"@
        } else {
            "vhost_user_net_error: "@ + self.name()
        }
    }

    /// The text of the error, for the text of its reason.
    pub fn message_for(&self, reason: &str) -> (text: String)
        ensures
            text@ == self.message(reason@),
    {
        let mut text = String::from_str("vhost_user_net_error: ");
        let name = match self {
            Error::BadActivate => "BadActivate",
            Error::CreateKillEventFd(_) => "CreateKillEventFd",
            Error::EpollCreateFd(_) => "EpollCreateFd",
            Error::EpollCtl(_) => "EpollCtl",
            Error::EpollWait(_) => "EpollWait",
            Error::FailedReadTap => "FailedReadTap",
            Error::FailedRegisterListener => "FailedRegisterListener",
            Error::FailedUnRegisterListener => "FailedUnRegisterListener",
            Error::FailedReadWorkerReset => "FailedReadWorkerReset",
            Error::FailedSignalingUsedQueue => "FailedSignalingUsedQueue",
            Error::FailedUpdateMemory => "FailedUpdateMemory",
            Error::HandleEventNotEpollIn => "HandleEventNotEpollIn",
            Error::HandleEventReadKick => "HandleEventReadKick",
            Error::HandleEventUnknownEvent => "HandleEventUnknownEvent",
            Error::InvalidVringAddr => "InvalidVringAddr",
            Error::NoVringCallFdNotify => "NoVringCallFdNotify",
            Error::NoMemoryConfigured => "NoMemoryConfigured",
            Error::ParseSockParam => "ParseSockParam",
            Error::ParseIpParam(_) => "ParseIpParam",
            Error::ParseMaskParam(_) => "ParseMaskParam",
            Error::ParseQueueNumParam(_) => "ParseQueueNumParam",
            Error::ParseQueueSizeParam(_) => "ParseQueueSizeParam",
            Error::OpenTap(_) => "OpenTap",
        };
        text.append(name);
        match self {
            Error::CreateKillEventFd(_)
            | Error::EpollCreateFd(_)
            | Error::EpollCtl(_)
            | Error::EpollWait(_)
            | Error::ParseIpParam(_)
            | Error::ParseMaskParam(_)
            | Error::ParseQueueNumParam(_)
            | Error::ParseQueueSizeParam(_)
            | Error::OpenTap(_) => {
                text.append("(");
                text.append(reason);
                text.append(")");
            },
            _ => {},
        }
        text
    }

    /// The text of the error.
    pub fn text(&self) -> (text: String)
        ensures
            exists|reason: Seq<char>|
                text@ == #[trigger] self.message(reason) && (self.reason() is Some ==> reason
                    == self.reason()->0),
    {
        let reason = match self {
            Error::CreateKillEventFd(e) => write_io_error(e),
            Error::EpollCreateFd(e) => write_io_error(e),
            Error::EpollCtl(e) => write_io_error(e),
            Error::EpollWait(e) => write_io_error(e),
            Error::ParseIpParam(_) => String::from_str("AddrParseError(Ipv4)"),
            Error::ParseMaskParam(_) => String::from_str("AddrParseError(Ipv4)"),
            Error::ParseQueueNumParam(e) => write_int_error(e),
            Error::ParseQueueSizeParam(e) => write_int_error(e),
            Error::OpenTap(report) => String::from_str(report.as_str()),
            _ => String::new(),
        };
        let text = self.message_for(reason.as_str());
        assert(text@ == self.message(reason@));
        text
    }
}

/// Every error is told by its own name.
pub proof fn law_errors_are_told_by_their_names(e: Error)
    ensures
        e is BadActivate ==> e.name() == "BadActivate"@,
        e is CreateKillEventFd ==> e.name() == "CreateKillEventFd"@,
        e is EpollCreateFd ==> e.name() == "EpollCreateFd"@,
        e is EpollCtl ==> e.name() == "EpollCtl"@,
        e is EpollWait ==> e.name() == "EpollWait"@,
        e is FailedReadTap ==> e.name() == "FailedReadTap"@,
        e is FailedRegisterListener ==> e.name() == "FailedRegisterListener"@,
        e is FailedUnRegisterListener ==> e.name() == "FailedUnRegisterListener"@,
        e is FailedReadWorkerReset ==> e.name() == "FailedReadWorkerReset"@,
        e is FailedSignalingUsedQueue ==> e.name() == "FailedSignalingUsedQueue"@,
        e is FailedUpdateMemory ==> e.name() == "FailedUpdateMemory"@,
        e is HandleEventNotEpollIn ==> e.name() == "HandleEventNotEpollIn"@,
        e is HandleEventReadKick ==> e.name() == "HandleEventReadKick"@,
        e is HandleEventUnknownEvent ==> e.name() == "HandleEventUnknownEvent"@,
        e is InvalidVringAddr ==> e.name() == "InvalidVringAddr"@,
        e is NoVringCallFdNotify ==> e.name() == "NoVringCallFdNotify"@,
        e is NoMemoryConfigured ==> e.name() == "NoMemoryConfigured"@,
        e is ParseSockParam ==> e.name() == "ParseSockParam"@,
        e is ParseIpParam ==> e.name() == "ParseIpParam"@,
        e is ParseMaskParam ==> e.name() == "ParseMaskParam"@,
        e is ParseQueueNumParam ==> e.name() == "ParseQueueNumParam"@,
        e is ParseQueueSizeParam ==> e.name() == "ParseQueueSizeParam"@,
        e is OpenTap ==> e.name() == "OpenTap"@,
{
}

/// The text of an error is the name of the program, the name of the error and, in brackets, the reason
/// where the error holds one.
pub proof fn law_text_tells_name_and_reason(e: Error, reason: Seq<char>)
    ensures
        ({
            let holds = e is CreateKillEventFd || e is EpollCreateFd || e is EpollCtl
                || e is EpollWait || e is ParseIpParam || e is ParseMaskParam
                || e is ParseQueueNumParam || e is ParseQueueSizeParam || e is OpenTap;
            &&& holds ==> e.message(reason) == "vhost_user_net_error: "@ + e.name() + "("@ + reason
                + ")"@
            &&& !holds ==> e.message(reason) == "vhost_user_net_error: "@ + e.name()
        }),
{
}

/// The reason of an error is the report of the tap device, the text of the number error, or that a
/// text is no IPv4 address.
pub proof fn law_reason_is_what_the_error_holds(e: Error)
    ensures
        e matches Error::OpenTap(report) ==> e.reason() == Some(report@),
        e matches Error::ParseQueueNumParam(n) ==> e.reason() == Some(int_error_text(n)),
        e matches Error::ParseQueueSizeParam(n) ==> e.reason() == Some(int_error_text(n)),
        e is ParseIpParam || e is ParseMaskParam ==> e.reason() == Some("AddrParseError(Ipv4)"@),
{
}

} // verus!
