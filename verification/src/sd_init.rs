use vstd::prelude::*;

verus! {

/// The card commands the driver sends.
#[derive(Clone, Copy, Debug, PartialEq, Eq, Structural)]
pub enum SdCommand {
    ResetClock,
    GoIdleState,
    SendIfCond(u32),
    AppCmd(u32),
    SdSendOpCond(u32),
    AllSendCid,
    SendRelativeAddr,
    SendCsd(u32),
    SelectCard(u32),
    SendScr,
    ReadSingleBlock(u32),
    WriteSingleBlock(u32),
}

/// Argument of the interface-condition command: 2.7-3.6 V and check pattern 0xaa.
pub const IF_COND_ARGUMENT: u32 = 0x1aa;

/// Check pattern the card echoes in the interface-condition response.
pub const IF_COND_CHECK_PATTERN: u32 = 0xaa;

/// Argument of the operating-condition command: high capacity support and
/// the supported voltage window.
pub const OP_COND_ARGUMENT: u32 = 0x41ff_8000;

/// Clock divider for the 400 kHz identification clock.
pub const IDENTIFICATION_CLOCK_DIVIDER: u32 = 4;

/// Register work or a command the driver is to carry out next.
#[derive(Clone, Copy, Debug, PartialEq, Eq, Structural)]
pub enum InitAction {
    /// Write a clock-enable register with the card clock off.
    DisableClock,
    /// Write the clock divider.
    SetClockDivider(u32),
    /// Write a clock-enable register with the card clock on.
    EnableClock,
    /// Set the data bus to one bit.
    SetBusWidth1,
    /// Reset DMA and switch off the internal DMA controller.
    ResetDma,
    /// Send a command and report its response.
    Send(SdCommand),
    /// Program the block size and byte count of the next data transfer.
    SetTransactionSize(u16, u32),
    /// Read one 64-bit word from the FIFO and report it.
    ReadFifoWord,
    /// Clear the raw interrupt status.
    ClearInterrupts,
    /// Initialisation is complete.
    Finished,
    /// Initialisation stopped on this error: the driver gives up and issues
    /// no further command.
    Abort(InitError),
}

/// How the driver's last action went.
#[derive(Clone, Copy, Debug)]
pub enum ActionOutcome {
    /// Register work done.
    Done,
    /// The response of a command; `None` when the controller flagged an error.
    Response(Option<[u32; 4]>),
    /// The word read from the FIFO.
    FifoWord(u64),
}

/// Why initialisation cannot go on.
#[derive(Clone, Copy, Debug, PartialEq, Eq, Structural)]
pub enum InitError {
    /// A command whose response is needed failed.
    CommandFailed(SdCommand),
    /// The card did not echo the check pattern: unsupported version.
    UnsupportedVersion,
}

/// The stages of card initialisation, in order.
#[derive(Clone, Copy, Debug, PartialEq, Eq, Structural)]
pub enum InitPhase {
    DisableClock,
    FirstClockReset,
    SetDivider,
    EnableClock,
    SecondClockReset,
    BusWidth,
    DmaReset,
    GoIdle,
    InterfaceCondition,
    OpCondAppCmd,
    OpCond,
    CardId,
    RelativeAddress,
    CardSpecificData,
    SelectCard,
    ScrAppCmd,
    ScrTransferSize,
    ReadScr,
    BusWidthWord,
    ClearInterrupts,
    Ready,
    /// Initialisation stopped for good on this error.
    Failed(InitError),
}

/// Initialisation state and what it has learned of the card.
#[derive(Clone, Copy, Debug)]
pub struct SdInit {
    pub phase: InitPhase,
    pub high_capacity: bool,
    pub cid: [u32; 4],
    pub rca: u32,
    pub csd: [u32; 4],
    pub bus_widths: u64,
}

/// The relative card address carried in the upper half of a response word.
pub open spec fn spec_relative_address(resp0: u32) -> u32 {
    (resp0 >> 16u32) & 0xffff
}

/// The argument that addresses the card with relative address `rca`.
pub open spec fn spec_address_argument(rca: u32) -> u32 {
    rca << 16u32
}

/// The bus widths field of the SCR word read from the FIFO.
pub open spec fn spec_bus_widths(word: u64) -> u64 {
    (word >> 8u64) & 0xf
}

/// The card echoed the check pattern.
pub open spec fn spec_if_cond_ok(resp0: u32) -> bool {
    resp0 & 0xff == IF_COND_CHECK_PATTERN
}

/// The card finished powering up (OCR bit 31).
pub open spec fn spec_card_ready(ocr: u32) -> bool {
    ocr & 0x8000_0000 != 0
}

/// The card is high capacity (OCR bit 30).
pub open spec fn spec_high_capacity(ocr: u32) -> bool {
    ocr & 0x4000_0000 != 0
}

/// What the driver does in each stage.
pub open spec fn init_action(s: SdInit) -> InitAction {
    let addr = spec_address_argument(s.rca);
    match s.phase {
        InitPhase::DisableClock => InitAction::DisableClock,
        InitPhase::FirstClockReset => InitAction::Send(SdCommand::ResetClock),
        InitPhase::SetDivider => InitAction::SetClockDivider(IDENTIFICATION_CLOCK_DIVIDER),
        InitPhase::EnableClock => InitAction::EnableClock,
        InitPhase::SecondClockReset => InitAction::Send(SdCommand::ResetClock),
        InitPhase::BusWidth => InitAction::SetBusWidth1,
        InitPhase::DmaReset => InitAction::ResetDma,
        InitPhase::GoIdle => InitAction::Send(SdCommand::GoIdleState),
        InitPhase::InterfaceCondition => InitAction::Send(SdCommand::SendIfCond(IF_COND_ARGUMENT)),
        InitPhase::OpCondAppCmd => InitAction::Send(SdCommand::AppCmd(0)),
        InitPhase::OpCond => InitAction::Send(SdCommand::SdSendOpCond(OP_COND_ARGUMENT)),
        InitPhase::CardId => InitAction::Send(SdCommand::AllSendCid),
        InitPhase::RelativeAddress => InitAction::Send(SdCommand::SendRelativeAddr),
        InitPhase::CardSpecificData => InitAction::Send(SdCommand::SendCsd(addr)),
        InitPhase::SelectCard => InitAction::Send(SdCommand::SelectCard(addr)),
        InitPhase::ScrAppCmd => InitAction::Send(SdCommand::AppCmd(addr)),
        InitPhase::ScrTransferSize => InitAction::SetTransactionSize(8, 8),
        InitPhase::ReadScr => InitAction::Send(SdCommand::SendScr),
        InitPhase::BusWidthWord => InitAction::ReadFifoWord,
        InitPhase::ClearInterrupts => InitAction::ClearInterrupts,
        InitPhase::Ready => InitAction::Finished,
        InitPhase::Failed(e) => InitAction::Abort(e),
    }
}

/// The outcome has the kind the stage's action produces.
pub open spec fn outcome_fits(s: SdInit, o: ActionOutcome) -> bool {
    match init_action(s) {
        InitAction::Send(_) => o is Response,
        InitAction::ReadFifoWord => o is FifoWord,
        _ => o is Done,
    }
}

pub open spec fn with_phase(s: SdInit, p: InitPhase) -> SdInit {
    SdInit { phase: p, ..s }
}

/// The next state after the stage's action had outcome `o`.
///
/// The responses of the clock resets, of going idle and of the application
/// command before each operating-condition query are ignored; every other
/// command must succeed. The interface-condition response must echo the
/// check pattern. The operating-condition query repeats until the card is
/// ready. The card's id, relative address, card-specific data and bus widths
/// are recorded on the way.
pub open spec fn init_advance(s: SdInit, o: ActionOutcome) -> Result<SdInit, InitError> {
    let cmd = match init_action(s) {
        InitAction::Send(c) => c,
        _ => SdCommand::ResetClock,
    };
    let resp = match o {
        ActionOutcome::Response(r) => r,
        _ => None,
    };
    match s.phase {
        InitPhase::DisableClock => Ok(with_phase(s, InitPhase::FirstClockReset)),
        InitPhase::FirstClockReset => Ok(with_phase(s, InitPhase::SetDivider)),
        InitPhase::SetDivider => Ok(with_phase(s, InitPhase::EnableClock)),
        InitPhase::EnableClock => Ok(with_phase(s, InitPhase::SecondClockReset)),
        InitPhase::SecondClockReset => Ok(with_phase(s, InitPhase::BusWidth)),
        InitPhase::BusWidth => Ok(with_phase(s, InitPhase::DmaReset)),
        InitPhase::DmaReset => Ok(with_phase(s, InitPhase::GoIdle)),
        InitPhase::GoIdle => Ok(with_phase(s, InitPhase::InterfaceCondition)),
        InitPhase::InterfaceCondition => match resp {
            None => Err(InitError::CommandFailed(cmd)),
            Some(r) => if spec_if_cond_ok(r[0]) {
                Ok(with_phase(s, InitPhase::OpCondAppCmd))
            } else {
                Err(InitError::UnsupportedVersion)
            },
        },
        InitPhase::OpCondAppCmd => Ok(with_phase(s, InitPhase::OpCond)),
        InitPhase::OpCond => match resp {
            None => Err(InitError::CommandFailed(cmd)),
            Some(r) => if spec_card_ready(r[0]) {
                Ok(SdInit { phase: InitPhase::CardId, high_capacity: spec_high_capacity(r[0]), ..s })
            } else {
                Ok(with_phase(s, InitPhase::OpCondAppCmd))
            },
        },
        InitPhase::CardId => match resp {
            None => Err(InitError::CommandFailed(cmd)),
            Some(r) => Ok(SdInit { phase: InitPhase::RelativeAddress, cid: r, ..s }),
        },
        InitPhase::RelativeAddress => match resp {
            None => Err(InitError::CommandFailed(cmd)),
            Some(r) => Ok(
                SdInit { phase: InitPhase::CardSpecificData, rca: spec_relative_address(r[0]), ..s },
            ),
        },
        InitPhase::CardSpecificData => match resp {
            None => Err(InitError::CommandFailed(cmd)),
            Some(r) => Ok(SdInit { phase: InitPhase::SelectCard, csd: r, ..s }),
        },
        InitPhase::SelectCard => match resp {
            None => Err(InitError::CommandFailed(cmd)),
            Some(_) => Ok(with_phase(s, InitPhase::ScrAppCmd)),
        },
        InitPhase::ScrAppCmd => match resp {
            None => Err(InitError::CommandFailed(cmd)),
            Some(_) => Ok(with_phase(s, InitPhase::ScrTransferSize)),
        },
        InitPhase::ScrTransferSize => Ok(with_phase(s, InitPhase::ReadScr)),
        InitPhase::ReadScr => match resp {
            None => Err(InitError::CommandFailed(cmd)),
            Some(_) => Ok(with_phase(s, InitPhase::BusWidthWord)),
        },
        InitPhase::BusWidthWord => match o {
            ActionOutcome::FifoWord(w) => Ok(
                SdInit { phase: InitPhase::ClearInterrupts, bus_widths: spec_bus_widths(w), ..s },
            ),
            _ => Ok(with_phase(s, InitPhase::ClearInterrupts)),
        },
        InitPhase::ClearInterrupts => Ok(with_phase(s, InitPhase::Ready)),
        InitPhase::Ready => Ok(s),
        InitPhase::Failed(e) => Err(e),
    }
}

/// The state after the stage's action had outcome `o`: the next stage, or
/// the failed stage carrying the error.
pub open spec fn init_after(s: SdInit, o: ActionOutcome) -> SdInit {
    match init_advance(s, o) {
        Ok(n) => n,
        Err(e) => with_phase(s, InitPhase::Failed(e)),
    }
}

/// The state after a run of outcomes, one per action, in order.
pub open spec fn init_after_all(s: SdInit, outcomes: Seq<ActionOutcome>) -> SdInit
    decreases outcomes.len(),
{
    if outcomes.len() == 0 {
        s
    } else {
        init_after_all(init_after(s, outcomes[0]), outcomes.drop_first())
    }
}

/// The relative card address in a response word.
pub fn relative_address(resp0: u32) -> (rca: u32)
    ensures
        rca == spec_relative_address(resp0),
{
    (resp0 >> 16u32) & 0xffff
}

/// The argument addressing the card with relative address `rca`.
pub fn address_argument(rca: u32) -> (arg: u32)
    ensures
        arg == spec_address_argument(rca),
{
    rca << 16u32
}

/// The bus widths field of an SCR word.
pub fn bus_widths(word: u64) -> (w: u64)
    ensures
        w == spec_bus_widths(word),
{
    (word >> 8u64) & 0xf
}

impl SdInit {
    /// Initialisation before anything has been done.
    pub fn new() -> (s: Self)
        ensures
            s.phase == InitPhase::DisableClock,
            !s.high_capacity,
            s.rca == 0,
            s.bus_widths == 0,
            s.cid@ == seq![0u32, 0u32, 0u32, 0u32],
            s.csd@ == seq![0u32, 0u32, 0u32, 0u32],
    {
        let s = SdInit {
            phase: InitPhase::DisableClock,
            high_capacity: false,
            cid: [0u32, 0u32, 0u32, 0u32],
            rca: 0,
            csd: [0u32, 0u32, 0u32, 0u32],
            bus_widths: 0,
        };
        proof {
            assert(s.cid@ =~= seq![0u32, 0u32, 0u32, 0u32]);
            assert(s.csd@ =~= seq![0u32, 0u32, 0u32, 0u32]);
        }
        s
    }

    /// What the driver does next.
    pub fn next_action(&self) -> (a: InitAction)
        ensures
            a == init_action(*self),
    {
        let addr = address_argument(self.rca);
        match self.phase {
            InitPhase::DisableClock => InitAction::DisableClock,
            InitPhase::FirstClockReset => InitAction::Send(SdCommand::ResetClock),
            InitPhase::SetDivider => InitAction::SetClockDivider(IDENTIFICATION_CLOCK_DIVIDER),
            InitPhase::EnableClock => InitAction::EnableClock,
            InitPhase::SecondClockReset => InitAction::Send(SdCommand::ResetClock),
            InitPhase::BusWidth => InitAction::SetBusWidth1,
            InitPhase::DmaReset => InitAction::ResetDma,
            InitPhase::GoIdle => InitAction::Send(SdCommand::GoIdleState),
            InitPhase::InterfaceCondition => InitAction::Send(SdCommand::SendIfCond(IF_COND_ARGUMENT)),
            InitPhase::OpCondAppCmd => InitAction::Send(SdCommand::AppCmd(0)),
            InitPhase::OpCond => InitAction::Send(SdCommand::SdSendOpCond(OP_COND_ARGUMENT)),
            InitPhase::CardId => InitAction::Send(SdCommand::AllSendCid),
            InitPhase::RelativeAddress => InitAction::Send(SdCommand::SendRelativeAddr),
            InitPhase::CardSpecificData => InitAction::Send(SdCommand::SendCsd(addr)),
            InitPhase::SelectCard => InitAction::Send(SdCommand::SelectCard(addr)),
            InitPhase::ScrAppCmd => InitAction::Send(SdCommand::AppCmd(addr)),
            InitPhase::ScrTransferSize => InitAction::SetTransactionSize(8, 8),
            InitPhase::ReadScr => InitAction::Send(SdCommand::SendScr),
            InitPhase::BusWidthWord => InitAction::ReadFifoWord,
            InitPhase::ClearInterrupts => InitAction::ClearInterrupts,
            InitPhase::Ready => InitAction::Finished,
            InitPhase::Failed(e) => InitAction::Abort(e),
        }
    }

    /// Takes in how the last action went and moves to the next stage, or
    /// reports why initialisation cannot go on; the machine then stays in the
    /// failed stage, whose only action is to abort.
    pub fn complete(&mut self, outcome: ActionOutcome) -> (r: Result<(), InitError>)
        requires
            outcome_fits(*old(self), outcome),
        ensures
            *final(self) == init_after(*old(self), outcome),
            match init_advance(*old(self), outcome) {
                Ok(_) => r is Ok,
                Err(e) => r == Err::<(), InitError>(e),
            },
    {
        match self.step(outcome) {
            Ok(()) => Ok(()),
            Err(e) => {
                self.phase = InitPhase::Failed(e);
                Err(e)
            },
        }
    }

    fn step(&mut self, outcome: ActionOutcome) -> (r: Result<(), InitError>)
        requires
            outcome_fits(*old(self), outcome),
        ensures
            match init_advance(*old(self), outcome) {
                Ok(next) => r is Ok && *final(self) == next,
                Err(e) => r == Err::<(), InitError>(e) && *final(self) == *old(self),
            },
    {
        let cmd = match self.next_action() {
            InitAction::Send(c) => c,
            _ => SdCommand::ResetClock,
        };
        let resp = match outcome {
            ActionOutcome::Response(r) => r,
            _ => None,
        };
        let next = match self.phase {
            InitPhase::DisableClock => InitPhase::FirstClockReset,
            InitPhase::FirstClockReset => InitPhase::SetDivider,
            InitPhase::SetDivider => InitPhase::EnableClock,
            InitPhase::EnableClock => InitPhase::SecondClockReset,
            InitPhase::SecondClockReset => InitPhase::BusWidth,
            InitPhase::BusWidth => InitPhase::DmaReset,
            InitPhase::DmaReset => InitPhase::GoIdle,
            InitPhase::GoIdle => InitPhase::InterfaceCondition,
            InitPhase::InterfaceCondition => match resp {
                None => return Err(InitError::CommandFailed(cmd)),
                Some(r) => if r[0] & 0xff == IF_COND_CHECK_PATTERN {
                    InitPhase::OpCondAppCmd
                } else {
                    return Err(InitError::UnsupportedVersion);
                },
            },
            InitPhase::OpCondAppCmd => InitPhase::OpCond,
            InitPhase::OpCond => match resp {
                None => return Err(InitError::CommandFailed(cmd)),
                Some(r) => if r[0] & 0x8000_0000 != 0 {
                    self.high_capacity = r[0] & 0x4000_0000 != 0;
                    InitPhase::CardId
                } else {
                    InitPhase::OpCondAppCmd
                },
            },
            InitPhase::CardId => match resp {
                None => return Err(InitError::CommandFailed(cmd)),
                Some(r) => {
                    self.cid = r;
                    InitPhase::RelativeAddress
                },
            },
            InitPhase::RelativeAddress => match resp {
                None => return Err(InitError::CommandFailed(cmd)),
                Some(r) => {
                    self.rca = relative_address(r[0]);
                    InitPhase::CardSpecificData
                },
            },
            InitPhase::CardSpecificData => match resp {
                None => return Err(InitError::CommandFailed(cmd)),
                Some(r) => {
                    self.csd = r;
                    InitPhase::SelectCard
                },
            },
            InitPhase::SelectCard => match resp {
                None => return Err(InitError::CommandFailed(cmd)),
                Some(_) => InitPhase::ScrAppCmd,
            },
            InitPhase::ScrAppCmd => match resp {
                None => return Err(InitError::CommandFailed(cmd)),
                Some(_) => InitPhase::ScrTransferSize,
            },
            InitPhase::ScrTransferSize => InitPhase::ReadScr,
            InitPhase::ReadScr => match resp {
                None => return Err(InitError::CommandFailed(cmd)),
                Some(_) => InitPhase::BusWidthWord,
            },
            InitPhase::BusWidthWord => {
                if let ActionOutcome::FifoWord(w) = outcome {
                    self.bus_widths = bus_widths(w);
                }
                InitPhase::ClearInterrupts
            },
            InitPhase::ClearInterrupts => InitPhase::Ready,
            InitPhase::Ready => InitPhase::Ready,
            InitPhase::Failed(e) => return Err(e),
        };
        self.phase = next;
        Ok(())
    }
}

/// Once initialisation has failed it stays failed: every later action is
/// the abort carrying the error, whatever outcomes come in.
pub proof fn lemma_failure_is_final(s: SdInit, outcomes: Seq<ActionOutcome>)
    requires
        s.phase is Failed,
    ensures
        init_after_all(s, outcomes) == s,
        init_action(init_after_all(s, outcomes)) == InitAction::Abort(s.phase->Failed_0),
    decreases outcomes.len(),
{
    assert(init_after(s, outcomes[0]) == s) by {
        assert(with_phase(s, s.phase) == s);
    }
    if outcomes.len() > 0 {
        lemma_failure_is_final(s, outcomes.drop_first());
    }
}

/// A card that does not echo the check pattern stops initialisation before
/// any operating-condition command: the interface-condition stage fails
/// with `UnsupportedVersion`, and from then on no command is sent.
pub proof fn lemma_unsupported_version_stops(s: SdInit, r: [u32; 4], later: Seq<ActionOutcome>)
    requires
        s.phase == InitPhase::InterfaceCondition,
        !spec_if_cond_ok(r[0]),
    ensures
        init_advance(s, ActionOutcome::Response(Some(r))) == Err::<SdInit, InitError>(
            InitError::UnsupportedVersion,
        ),
        init_action(init_after_all(init_after(s, ActionOutcome::Response(Some(r))), later))
            == InitAction::Abort(InitError::UnsupportedVersion),
{
    lemma_failure_is_final(init_after(s, ActionOutcome::Response(Some(r))), later);
}

/// A required command that fails stops initialisation: the error names the
/// command, and from then on no command is sent.
pub proof fn lemma_failed_command_stops(s: SdInit, later: Seq<ActionOutcome>)
    requires
        s.phase == InitPhase::InterfaceCondition || s.phase == InitPhase::OpCond || s.phase
            == InitPhase::CardId || s.phase == InitPhase::RelativeAddress || s.phase
            == InitPhase::CardSpecificData || s.phase == InitPhase::SelectCard || s.phase
            == InitPhase::ScrAppCmd || s.phase == InitPhase::ReadScr,
    ensures
        init_action(s) matches InitAction::Send(c) && init_advance(s, ActionOutcome::Response(None))
            == Err::<SdInit, InitError>(InitError::CommandFailed(c)),
        init_action(init_after_all(init_after(s, ActionOutcome::Response(None)), later))
            is Abort,
{
    lemma_failure_is_final(init_after(s, ActionOutcome::Response(None)), later);
}

/// Initialisation reaches the card-id stage only through a ready
/// operating-condition response, after an echoed check pattern: from the
/// operating-condition stage, a response without the ready bit goes back to
/// the application command, and one with it moves on.
pub proof fn lemma_op_cond_waits_for_ready(s: SdInit, r: [u32; 4])
    requires
        s.phase == InitPhase::OpCond,
    ensures
        spec_card_ready(r[0]) ==> (init_advance(s, ActionOutcome::Response(Some(r))) matches Ok(n)
            && n.phase == InitPhase::CardId && n.high_capacity == spec_high_capacity(r[0])),
        !spec_card_ready(r[0]) ==> (init_advance(s, ActionOutcome::Response(Some(r))) matches Ok(n)
            && n.phase == InitPhase::OpCondAppCmd),
{
}

/// The commands addressed to the card after its address is learned carry
/// the relative address in their upper half.
pub proof fn lemma_addressed_commands(s: SdInit, r: [u32; 4])
    requires
        s.phase == InitPhase::RelativeAddress,
    ensures
        init_advance(s, ActionOutcome::Response(Some(r))) matches Ok(n) && init_action(n)
            == InitAction::Send(SdCommand::SendCsd(((r[0] >> 16u32) & 0xffff) << 16u32)),
{
}

/// The actions the driver is asked for along a run of outcomes: the first
/// action, then one more after each outcome.
pub open spec fn init_actions(s: SdInit, outcomes: Seq<ActionOutcome>) -> Seq<InitAction>
    decreases outcomes.len(),
{
    if outcomes.len() == 0 {
        seq![init_action(s)]
    } else {
        seq![init_action(s)] + init_actions(init_after(s, outcomes[0]), outcomes.drop_first())
    }
}

/// The outcomes of an initialisation in which every required command
/// succeeds: register work is done, the responses of the clock resets, of
/// going idle and of the first application command are whatever the
/// controller gave, the card echoes the check pattern and is ready at the
/// first operating-condition query.
pub open spec fn successful_outcomes(
    ignored: Seq<Option<[u32; 4]>>,
    required: Seq<[u32; 4]>,
    scr_word: u64,
) -> Seq<ActionOutcome> {
    seq![
        ActionOutcome::Done,
        ActionOutcome::Response(ignored[0]),
        ActionOutcome::Done,
        ActionOutcome::Done,
        ActionOutcome::Response(ignored[1]),
        ActionOutcome::Done,
        ActionOutcome::Done,
        ActionOutcome::Response(ignored[2]),
        ActionOutcome::Response(Some(required[0])),
        ActionOutcome::Response(ignored[3]),
        ActionOutcome::Response(Some(required[1])),
        ActionOutcome::Response(Some(required[2])),
        ActionOutcome::Response(Some(required[3])),
        ActionOutcome::Response(Some(required[4])),
        ActionOutcome::Response(Some(required[5])),
        ActionOutcome::Response(Some(required[6])),
        ActionOutcome::Done,
        ActionOutcome::Response(Some(required[7])),
        ActionOutcome::FifoWord(scr_word),
        ActionOutcome::Done,
    ]
}

/// The whole initialisation sequence. From the start, when every required
/// command succeeds, the driver is asked, in exactly this order, to switch
/// the card clock off, reset the clock, set the divider 4 for 400 kHz,
/// switch the card clock on, reset the clock again, set a one-bit bus,
/// reset DMA, send the card idle, ask the interface condition with argument
/// 0x1aa, query the operating condition (application command with address
/// 0, then argument 0x41ff_8000), ask the card id and the relative address,
/// ask the card-specific data, select the card and send an application
/// command, all three addressed with the relative address in the upper half
/// of the argument, set an 8-byte transfer, read the SCR, read one FIFO word
/// and clear the interrupts; then initialisation is finished. On the way it
/// keeps the card id, the card-specific data, the relative address (upper
/// half of the address response), the capacity (OCR bit 30) and the bus
/// widths (bits 8 to 11 of the FIFO word).
#[verifier::rlimit(50)]
pub proof fn lemma_initialisation_sequence(
    s: SdInit,
    ignored: Seq<Option<[u32; 4]>>,
    required: Seq<[u32; 4]>,
    scr_word: u64,
)
    requires
        s.phase == InitPhase::DisableClock,
        ignored.len() == 4,
        required.len() == 8,
        required[0][0] & 0xff == 0xaa,
        required[1][0] & 0x8000_0000 != 0,
    ensures
        ({
            let rca = (required[3][0] / 0x1_0000) as u32;
            let addr = (rca * 0x1_0000) as u32;
            init_actions(s, successful_outcomes(ignored, required, scr_word)) == seq![
                InitAction::DisableClock,
                InitAction::Send(SdCommand::ResetClock),
                InitAction::SetClockDivider(4),
                InitAction::EnableClock,
                InitAction::Send(SdCommand::ResetClock),
                InitAction::SetBusWidth1,
                InitAction::ResetDma,
                InitAction::Send(SdCommand::GoIdleState),
                InitAction::Send(SdCommand::SendIfCond(0x1aa)),
                InitAction::Send(SdCommand::AppCmd(0)),
                InitAction::Send(SdCommand::SdSendOpCond(0x41ff_8000)),
                InitAction::Send(SdCommand::AllSendCid),
                InitAction::Send(SdCommand::SendRelativeAddr),
                InitAction::Send(SdCommand::SendCsd(addr)),
                InitAction::Send(SdCommand::SelectCard(addr)),
                InitAction::Send(SdCommand::AppCmd(addr)),
                InitAction::SetTransactionSize(8, 8),
                InitAction::Send(SdCommand::SendScr),
                InitAction::ReadFifoWord,
                InitAction::ClearInterrupts,
                InitAction::Finished,
            ]
        }),
        ({
            let done = init_after_all(s, successful_outcomes(ignored, required, scr_word));
            &&& done.phase == InitPhase::Ready
            &&& done.cid == required[2]
            &&& done.rca == required[3][0] / 0x1_0000
            &&& done.csd == required[4]
            &&& done.high_capacity == (required[1][0] / 0x4000_0000 % 2 == 1)
            &&& done.bus_widths == scr_word / 0x100 % 0x10
        }),
{
    let outs = successful_outcomes(ignored, required, scr_word);
    reveal_with_fuel(init_actions, 21);
    reveal_with_fuel(init_after_all, 21);
    let r3 = required[3][0];
    let r1 = required[1][0];
    assert((r3 >> 16u32) & 0xffff == r3 / 0x1_0000) by (bit_vector);
    assert(((r3 >> 16u32) & 0xffff) << 16u32 == ((r3 / 0x1_0000) * 0x1_0000) as u32) by (bit_vector);
    assert((r1 & 0x4000_0000 != 0) == (r1 / 0x4000_0000 % 2 == 1)) by (bit_vector);
    assert((scr_word >> 8u64) & 0xf == scr_word / 0x100 % 0x10) by (bit_vector);
    assert(outs.len() == 20);
}

/// The bus widths recorded from the SCR word are its four-bit SD_BUS_WIDTHS
/// field alone: less than 16, equal to bits 8 to 11 of the word, and the
/// same for any two words that agree on those bits.
pub proof fn lemma_bus_widths_field(word: u64, other: u64)
    ensures
        spec_bus_widths(word) < 16,
        spec_bus_widths(word) == word / 0x100 % 0x10,
        word / 0x100 % 0x10 == other / 0x100 % 0x10 ==> spec_bus_widths(word) == spec_bus_widths(other),
{
    assert((word >> 8u64) & 0xf < 16) by (bit_vector);
    assert((word >> 8u64) & 0xf == word / 0x100 % 0x10) by (bit_vector);
    assert((other >> 8u64) & 0xf == other / 0x100 % 0x10) by (bit_vector);
}

} // verus!
