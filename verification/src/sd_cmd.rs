use vstd::prelude::*;

verus! {

/// The stages of issuing one command to the controller, in order.
#[derive(Clone, Copy, Debug, PartialEq, Eq, Structural)]
pub enum CmdPhase {
    /// Wait until the controller takes commands (start bit clear).
    AwaitCommandSlot,
    /// Wait until no data transfer is busy (commands with data only).
    AwaitDataSlot,
    /// Write the command argument.
    WriteArgument,
    /// Write the command register.
    WriteCommand,
    /// Wait until the controller has taken the command.
    AwaitCommandTaken,
    /// Wait until the command is done (commands with a response only).
    AwaitResponse,
    /// Move the data through the FIFO until the transfer is over or fails
    /// (commands with data only).
    Transfer,
    /// Read the response and the raw interrupt status, then clear the status.
    ReadStatus,
    /// The command has been handled.
    Done,
}

/// What the driver does next while issuing a command.
#[derive(Clone, Copy, Debug, PartialEq, Eq, Structural)]
pub enum CmdAction {
    PollCommandSlot,
    PollDataSlot,
    WriteArgument,
    WriteCommand,
    PollCommandTaken,
    PollResponse,
    TransferData,
    ReadStatus,
    Finished,
}

/// How the driver's last action went.
#[derive(Clone, Copy, Debug)]
pub enum CmdEvent {
    /// The polled condition holds (`true`) or not yet (`false`).
    Polled(bool),
    /// The write or the transfer is done.
    Done,
    /// The response registers and whether the status flags an error.
    Status(bool, [u32; 4]),
}

/// Progress of issuing one command.
#[derive(Clone, Copy, Debug)]
pub struct CmdIssue {
    pub phase: CmdPhase,
    pub data_expected: bool,
    pub response_expected: bool,
    /// The outcome once the command has been handled: the response, or
    /// `None` when the controller flagged an error.
    pub result: Option<Option<[u32; 4]>>,
}

/// The outcome of a command: its response, unless the status flags an error.
pub open spec fn spec_response(error: bool, resp: [u32; 4]) -> Option<[u32; 4]> {
    if error {
        None
    } else {
        Some(resp)
    }
}

pub open spec fn cmd_action(s: CmdIssue) -> CmdAction {
    match s.phase {
        CmdPhase::AwaitCommandSlot => CmdAction::PollCommandSlot,
        CmdPhase::AwaitDataSlot => CmdAction::PollDataSlot,
        CmdPhase::WriteArgument => CmdAction::WriteArgument,
        CmdPhase::WriteCommand => CmdAction::WriteCommand,
        CmdPhase::AwaitCommandTaken => CmdAction::PollCommandTaken,
        CmdPhase::AwaitResponse => CmdAction::PollResponse,
        CmdPhase::Transfer => CmdAction::TransferData,
        CmdPhase::ReadStatus => CmdAction::ReadStatus,
        CmdPhase::Done => CmdAction::Finished,
    }
}

/// The stage after the command has been taken: wait for the response when
/// one is expected, else move data when there is data, else read the status.
pub open spec fn after_taken(s: CmdIssue) -> CmdPhase {
    if s.response_expected {
        CmdPhase::AwaitResponse
    } else {
        after_response(s)
    }
}

/// The stage after the response: move data when there is data, else read
/// the status.
pub open spec fn after_response(s: CmdIssue) -> CmdPhase {
    if s.data_expected {
        CmdPhase::Transfer
    } else {
        CmdPhase::ReadStatus
    }
}

pub open spec fn at(s: CmdIssue, p: CmdPhase) -> CmdIssue {
    CmdIssue { phase: p, ..s }
}

/// The next state after the stage's action had outcome `ev`. A poll that
/// does not hold yet keeps the stage; every other stage moves on in order.
pub open spec fn cmd_advance(s: CmdIssue, ev: CmdEvent) -> CmdIssue {
    let ready = match ev {
        CmdEvent::Polled(b) => b,
        _ => true,
    };
    match s.phase {
        CmdPhase::AwaitCommandSlot => if !ready {
            s
        } else if s.data_expected {
            at(s, CmdPhase::AwaitDataSlot)
        } else {
            at(s, CmdPhase::WriteArgument)
        },
        CmdPhase::AwaitDataSlot => if ready {
            at(s, CmdPhase::WriteArgument)
        } else {
            s
        },
        CmdPhase::WriteArgument => at(s, CmdPhase::WriteCommand),
        CmdPhase::WriteCommand => at(s, CmdPhase::AwaitCommandTaken),
        CmdPhase::AwaitCommandTaken => if ready {
            at(s, after_taken(s))
        } else {
            s
        },
        CmdPhase::AwaitResponse => if ready {
            at(s, after_response(s))
        } else {
            s
        },
        CmdPhase::Transfer => at(s, CmdPhase::ReadStatus),
        CmdPhase::ReadStatus => match ev {
            CmdEvent::Status(error, resp) => CmdIssue {
                phase: CmdPhase::Done,
                result: Some(spec_response(error, resp)),
                ..s
            },
            _ => s,
        },
        CmdPhase::Done => s,
    }
}

/// The event has the kind the stage's action produces.
pub open spec fn event_fits(s: CmdIssue, ev: CmdEvent) -> bool {
    match cmd_action(s) {
        CmdAction::PollCommandSlot | CmdAction::PollDataSlot | CmdAction::PollCommandTaken
        | CmdAction::PollResponse => ev is Polled,
        CmdAction::ReadStatus => ev is Status,
        _ => ev is Done,
    }
}

impl CmdIssue {
    /// Issuing a command that does or does not move data and does or does
    /// not expect a response.
    pub fn new(data_expected: bool, response_expected: bool) -> (s: Self)
        ensures
            s.phase == CmdPhase::AwaitCommandSlot,
            s.data_expected == data_expected,
            s.response_expected == response_expected,
            s.result is None,
    {
        CmdIssue { phase: CmdPhase::AwaitCommandSlot, data_expected, response_expected, result: None }
    }

    /// What the driver does next.
    pub fn next_action(&self) -> (a: CmdAction)
        ensures
            a == cmd_action(*self),
    {
        match self.phase {
            CmdPhase::AwaitCommandSlot => CmdAction::PollCommandSlot,
            CmdPhase::AwaitDataSlot => CmdAction::PollDataSlot,
            CmdPhase::WriteArgument => CmdAction::WriteArgument,
            CmdPhase::WriteCommand => CmdAction::WriteCommand,
            CmdPhase::AwaitCommandTaken => CmdAction::PollCommandTaken,
            CmdPhase::AwaitResponse => CmdAction::PollResponse,
            CmdPhase::Transfer => CmdAction::TransferData,
            CmdPhase::ReadStatus => CmdAction::ReadStatus,
            CmdPhase::Done => CmdAction::Finished,
        }
    }

    /// Takes in how the last action went and moves on.
    pub fn complete(&mut self, ev: CmdEvent)
        requires
            event_fits(*old(self), ev),
        ensures
            *final(self) == cmd_advance(*old(self), ev),
    {
        let ready = match ev {
            CmdEvent::Polled(b) => b,
            _ => true,
        };
        let after_response = if self.data_expected {
            CmdPhase::Transfer
        } else {
            CmdPhase::ReadStatus
        };
        let after_taken = if self.response_expected {
            CmdPhase::AwaitResponse
        } else {
            after_response
        };
        match self.phase {
            CmdPhase::AwaitCommandSlot => {
                if ready {
                    self.phase = if self.data_expected {
                        CmdPhase::AwaitDataSlot
                    } else {
                        CmdPhase::WriteArgument
                    };
                }
            },
            CmdPhase::AwaitDataSlot => {
                if ready {
                    self.phase = CmdPhase::WriteArgument;
                }
            },
            CmdPhase::WriteArgument => {
                self.phase = CmdPhase::WriteCommand;
            },
            CmdPhase::WriteCommand => {
                self.phase = CmdPhase::AwaitCommandTaken;
            },
            CmdPhase::AwaitCommandTaken => {
                if ready {
                    self.phase = after_taken;
                }
            },
            CmdPhase::AwaitResponse => {
                if ready {
                    self.phase = after_response;
                }
            },
            CmdPhase::Transfer => {
                self.phase = CmdPhase::ReadStatus;
            },
            CmdPhase::ReadStatus => {
                if let CmdEvent::Status(error, resp) = ev {
                    self.phase = CmdPhase::Done;
                    self.result = Some(Self::response(error, resp));
                }
            },
            CmdPhase::Done => {},
        }
    }

    /// The outcome of a command: its response, unless the status flags an
    /// error.
    pub fn response(error: bool, resp: [u32; 4]) -> (r: Option<[u32; 4]>)
        ensures
            r == spec_response(error, resp),
    {
        if error {
            None
        } else {
            Some(resp)
        }
    }
}

/// Whether the action waits on a condition of the controller.
pub open spec fn is_poll(a: CmdAction) -> bool {
    a == CmdAction::PollCommandSlot || a == CmdAction::PollDataSlot || a == CmdAction::PollCommandTaken
        || a == CmdAction::PollResponse
}

/// Waiting is waiting: in every polling stage (command slot, data slot,
/// command taken, response) a poll whose condition does not hold yet leaves
/// the state as it was, so the same poll is asked again; one that holds
/// moves on to another stage and records no result yet.
pub proof fn lemma_unanswered_poll_waits(s: CmdIssue)
    requires
        is_poll(cmd_action(s)),
    ensures
        cmd_advance(s, CmdEvent::Polled(false)) == s,
        cmd_action(cmd_advance(s, CmdEvent::Polled(false))) == cmd_action(s),
        cmd_advance(s, CmdEvent::Polled(true)).phase != s.phase,
        cmd_advance(s, CmdEvent::Polled(true)).phase != CmdPhase::Done,
        cmd_advance(s, CmdEvent::Polled(true)).result == s.result,
{
}

/// The actions of issuing a command when every poll holds at once, in order.
pub open spec fn ready_run(s: CmdIssue, steps: nat) -> Seq<CmdAction>
    decreases steps,
{
    if steps == 0 {
        seq![]
    } else {
        let ev = match cmd_action(s) {
            CmdAction::ReadStatus => CmdEvent::Status(false, [0u32, 0u32, 0u32, 0u32]),
            CmdAction::PollCommandSlot | CmdAction::PollDataSlot | CmdAction::PollCommandTaken
            | CmdAction::PollResponse => CmdEvent::Polled(true),
            _ => CmdEvent::Done,
        };
        seq![cmd_action(s)] + ready_run(cmd_advance(s, ev), (steps - 1) as nat)
    }
}

/// The handshake order: the command slot is awaited first, then the data
/// slot when data moves; the argument is written before the command; the
/// command is awaited to be taken, then the response when one is expected,
/// then the data moves, and the status is read last.
pub proof fn lemma_handshake_order(data_expected: bool, response_expected: bool)
    ensures
        ({
            let s = CmdIssue { phase: CmdPhase::AwaitCommandSlot, data_expected, response_expected, result: None };
            let slot = if data_expected { seq![CmdAction::PollCommandSlot, CmdAction::PollDataSlot] } else { seq![CmdAction::PollCommandSlot] };
            let resp = if response_expected { seq![CmdAction::PollResponse] } else { seq![] };
            let data = if data_expected { seq![CmdAction::TransferData] } else { seq![] };
            let all = slot + seq![CmdAction::WriteArgument, CmdAction::WriteCommand, CmdAction::PollCommandTaken]
                + resp + data + seq![CmdAction::ReadStatus, CmdAction::Finished];
            ready_run(s, all.len()) == all
        }),
{
    let s = CmdIssue { phase: CmdPhase::AwaitCommandSlot, data_expected, response_expected, result: None };
    reveal_with_fuel(ready_run, 11);
    let slot = if data_expected { seq![CmdAction::PollCommandSlot, CmdAction::PollDataSlot] } else { seq![CmdAction::PollCommandSlot] };
    let resp = if response_expected { seq![CmdAction::PollResponse] } else { seq![] };
    let data = if data_expected { seq![CmdAction::TransferData] } else { seq![] };
    let all = slot + seq![CmdAction::WriteArgument, CmdAction::WriteCommand, CmdAction::PollCommandTaken]
        + resp + data + seq![CmdAction::ReadStatus, CmdAction::Finished];
    assert(ready_run(s, all.len()) =~= all);
}

} // verus!
