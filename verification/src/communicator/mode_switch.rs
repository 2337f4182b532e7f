//! Switching the device between its two modes.
//!
//! The device acknowledges nothing. It is told to leave its mode, drops off
//! the bus and comes back under the other identity; the host searches for it
//! until it is there or the time is up. What the host does next is decided
//! here, one step at a time; sending, searching, opening and waiting are the
//! caller's.

use vstd::prelude::*;

use super::discovery::CommunicatorBuilder;
use super::error::CommunicationError;
use crate::cli::types::DeviceMode;

verus! {

/// How long the device is searched for after it was told to change its mode: 5 s.
pub const SWITCH_TIMEOUT_NANOS: u128 = 5_000_000_000;

/// The pause between two searches for the device: 100 ms.
pub const REFRESH_INTERVAL_NANOS: u128 = 100_000_000;

/// A command that makes the device restart in its other mode.
#[derive(Copy, Clone, PartialEq, Eq, Structural, Debug)]
pub enum ModeCommand {
    /// Sent to the application, which then restarts into the bootloader.
    EnterBootloader,
    /// Sent to the bootloader, which then starts the application.
    EnterApp,
}

impl ModeCommand {
    /// The command that makes a device in `mode` leave that mode.
    pub open spec fn spec_leaving(mode: DeviceMode) -> ModeCommand {
        match mode {
            DeviceMode::App => ModeCommand::EnterBootloader,
            DeviceMode::Bootloader => ModeCommand::EnterApp,
        }
    }

    /// The command that makes a device in `mode` leave that mode.
    #[verifier::when_used_as_spec(spec_leaving)]
    pub fn leaving(mode: DeviceMode) -> (r: ModeCommand)
        ensures
            r == ModeCommand::spec_leaving(mode),
    {
        match mode {
            DeviceMode::App => ModeCommand::EnterBootloader,
            DeviceMode::Bootloader => ModeCommand::EnterApp,
        }
    }

    /// The bytes of the command on the wire.
    pub open spec fn spec_bytes(self) -> Seq<u8> {
        match self {
            ModeCommand::EnterBootloader => seq![0x08u8, 0x42u8],
            ModeCommand::EnterApp => seq![0x00u8, 0xffu8, 0xffu8],
        }
    }

    /// The bytes of the command on the wire.
    pub fn bytes(&self) -> (r: Vec<u8>)
        ensures
            r@ == self.spec_bytes(),
    {
        let mut bytes: Vec<u8> = Vec::new();
        match self {
            ModeCommand::EnterBootloader => {
                bytes.push(0x08);
                bytes.push(0x42);
            },
            ModeCommand::EnterApp => {
                bytes.push(0x00);
                bytes.push(0xff);
                bytes.push(0xff);
            },
        }
        assert(bytes@ =~= self.spec_bytes());
        bytes
    }
}

/// The live handle to the device, known by the mode it was opened in. There
/// is one at a time: a request for a mode takes it, and what comes back
/// holds the handle that is live from then on.
#[derive(Debug)]
pub struct Session {
    mode: DeviceMode,
}

impl View for Session {
    type V = DeviceMode;

    /// The mode that the live handle was opened in.
    closed spec fn view(&self) -> DeviceMode {
        self.mode
    }
}

/// A switch on its way: the device was told to leave its mode, the old
/// handle is retired, and no handle is live until the device is found again.
#[derive(Debug)]
pub struct PendingSwitch {
    desired: DeviceMode,
}

impl View for PendingSwitch {
    type V = DeviceMode;

    /// The mode that was asked for.
    closed spec fn view(&self) -> DeviceMode {
        self.desired
    }
}

/// What a request for a mode asks of the caller.
#[derive(Debug)]
pub enum ModeRequest {
    /// The live handle is in the mode asked for: use it as it is.
    Ready(Session),
    /// Write `command` to the live handle and retire the handle, then search
    /// for the device and hand what is found to `pending`.
    Switch { command: ModeCommand, pending: PendingSwitch },
}

/// What the outcome of one search asks of the caller.
#[derive(Debug)]
pub enum PollStep {
    /// Open the device `candidate` and hand it to `pending`.
    Open { candidate: CommunicatorBuilder, pending: PendingSwitch },
    /// Wait for `after_nanos`, search again and hand what is found to `pending`.
    Retry { after_nanos: u128, pending: PendingSwitch },
    /// The switch has failed.
    Failed(CommunicationError),
}

/// How a switch ended once the device was found and opened.
#[derive(Debug)]
pub enum SwitchOutcome {
    /// The device is in the mode asked for.
    Switched(Session),
    /// The device came back in the mode it was to leave. The handle that
    /// was opened is live all the same.
    StillInWrongMode { session: Session, error: CommunicationError },
}

impl Session {
    /// The session of a handle that was opened in `mode`.
    pub fn connected(mode: DeviceMode) -> (r: Session)
        ensures
            r@ == mode,
    {
        Session { mode }
    }

    /// The mode that the live handle was opened in.
    pub fn current_mode(&self) -> (r: DeviceMode)
        ensures
            r == self@,
    {
        self.mode
    }

    /// Ask for a handle in the mode `desired`. Where the live handle is in
    /// that mode nothing is done; else the device has to be told to leave
    /// its mode.
    pub fn request_mode(self, desired: DeviceMode) -> (r: ModeRequest)
        ensures
            self@ == desired ==> (r matches ModeRequest::Ready(session) && session@ == desired),
            self@ != desired ==> (r matches ModeRequest::Switch { command, pending } && command
                == ModeCommand::spec_leaving(self@) && pending@ == desired),
    {
        if self.mode == desired {
            ModeRequest::Ready(self)
        } else {
            ModeRequest::Switch {
                command: ModeCommand::leaving(self.mode),
                pending: PendingSwitch { desired },
            }
        }
    }
}

/// What is to be done after a search for the device that ended with
/// `search`, `elapsed_nanos` after the device was told to leave its mode.
pub open spec fn poll_decision(
    search: Result<Option<CommunicatorBuilder>, CommunicationError>,
    elapsed_nanos: u128,
) -> PollDecision {
    match search {
        Err(error) => PollDecision::Fail(error),
        Ok(Some(candidate)) => PollDecision::Open(candidate),
        Ok(None) => if elapsed_nanos > SWITCH_TIMEOUT_NANOS {
            PollDecision::Fail(CommunicationError::DeviceReSearchTimeout)
        } else {
            PollDecision::Retry(REFRESH_INTERVAL_NANOS)
        },
    }
}

/// What one step of the search decides.
pub enum PollDecision {
    /// Open this device.
    Open(CommunicatorBuilder),
    /// Search again after this many nanoseconds.
    Retry(u128),
    /// Give up with this error.
    Fail(CommunicationError),
}

impl PollStep {
    /// What the step decides, without the pending switch that it hands on.
    pub open spec fn decision(self) -> PollDecision {
        match self {
            PollStep::Open { candidate, .. } => PollDecision::Open(candidate),
            PollStep::Retry { after_nanos, .. } => PollDecision::Retry(after_nanos),
            PollStep::Failed(error) => PollDecision::Fail(error),
        }
    }

    /// The switch that goes on after the step, if one does.
    pub open spec fn pending(self) -> Option<PendingSwitch> {
        match self {
            PollStep::Open { pending, .. } => Some(pending),
            PollStep::Retry { pending, .. } => Some(pending),
            PollStep::Failed(_) => None,
        }
    }
}

impl PendingSwitch {
    /// The mode that was asked for.
    pub fn desired_mode(&self) -> (r: DeviceMode)
        ensures
            r == self@,
    {
        self.desired
    }

    /// Decide what follows a search for the device that ended with `search`,
    /// `elapsed_nanos` after the device was told to leave its mode. A device
    /// that is found is opened, in whatever mode it is. A search that fails
    /// ends the switch. Where nothing is found the search goes on after a
    /// pause, unless the time is up.
    pub fn poll(
        self,
        search: Result<Option<CommunicatorBuilder>, CommunicationError>,
        elapsed_nanos: u128,
    ) -> (r: PollStep)
        ensures
            r.decision() == poll_decision(search, elapsed_nanos),
            r.pending() matches Some(pending) ==> pending@ == self@,
    {
        match search {
            Err(error) => PollStep::Failed(error),
            Ok(Some(candidate)) => PollStep::Open { candidate, pending: self },
            Ok(None) => {
                if elapsed_nanos > SWITCH_TIMEOUT_NANOS {
                    PollStep::Failed(CommunicationError::DeviceReSearchTimeout)
                } else {
                    PollStep::Retry { after_nanos: REFRESH_INTERVAL_NANOS, pending: self }
                }
            },
        }
    }

    /// End the switch with the handle that was opened for `candidate`: the
    /// device is in the mode asked for, or it is still in the other one.
    pub fn opened(self, candidate: CommunicatorBuilder) -> (r: SwitchOutcome)
        ensures
            candidate.mode == self@ ==> (r matches SwitchOutcome::Switched(session) && session@
                == self@),
            candidate.mode != self@ ==> (r matches SwitchOutcome::StillInWrongMode {
                session,
                error,
            } && session@ == candidate.mode && error == CommunicationError::StillInWrongMode(
                candidate.mode,
            )),
    {
        if candidate.mode == self.desired {
            SwitchOutcome::Switched(Session { mode: candidate.mode })
        } else {
            SwitchOutcome::StillInWrongMode {
                session: Session { mode: candidate.mode },
                error: CommunicationError::StillInWrongMode(candidate.mode),
            }
        }
    }
}

} // verus!
