use asyncos::sd_cmd::{CmdAction, CmdEvent, CmdIssue, CmdPhase};
use asyncos::sd_fifo::{load_word_le, store_word_le, BlockTransfer};
use asyncos::sd_init::{
    address_argument, bus_widths, relative_address, ActionOutcome, InitAction, InitError,
    InitPhase, SdCommand, SdInit,
};

#[test]
fn fifo_words_are_little_endian() {
    let mut buf = [0u8; 512];
    let w: u64 = 0x0123_4567_89ab_cdef;
    store_word_le(&mut buf, 8, w);
    assert_eq!(&buf[8..16], &w.to_le_bytes());
    assert_eq!(buf[7], 0);
    assert_eq!(buf[16], 0);
    assert_eq!(load_word_le(&buf, 8), w);
}

#[test]
fn block_transfer_moves_eight_bytes_per_word() {
    let mut buf = [0u8; 512];
    let mut t = BlockTransfer::new();
    assert!(BlockTransfer::read_word_available(2));
    assert!(!BlockTransfer::read_word_available(1));
    t.accept_read_word(&mut buf, 0xff);
    t.accept_read_word(&mut buf, 0x1_0000_0000);
    assert_eq!(t.offset(), 16);
    assert_eq!(buf[0], 0xff);
    assert_eq!(buf[12], 1);
    let mut w = BlockTransfer::new();
    assert!(w.write_word_wanted(119, 512));
    assert!(!w.write_word_wanted(120, 512));
    assert_eq!(w.next_write_word(&buf), 0xff);
    assert_eq!(w.next_write_word(&buf), 0x1_0000_0000);
    assert_eq!(w.offset(), 16);
}

#[test]
fn response_fields() {
    assert_eq!(relative_address(0xabcd_1234), 0xabcd);
    assert_eq!(address_argument(0xabcd), 0xabcd_0000);
    assert_eq!(bus_widths(0x0000_0000_0000_0500), 0x5);
}

fn run_init(responses: &mut dyn FnMut(SdCommand) -> Option<[u32; 4]>) -> Result<SdInit, InitError> {
    let mut s = SdInit::new();
    let mut sent = 0;
    loop {
        let outcome = match s.next_action() {
            InitAction::Finished => return Ok(s),
            InitAction::Abort(e) => return Err(e),
            InitAction::Send(cmd) => {
                sent += 1;
                assert!(sent < 100);
                ActionOutcome::Response(responses(cmd))
            }
            InitAction::ReadFifoWord => ActionOutcome::FifoWord(0x0000_0000_0000_0500),
            _ => ActionOutcome::Done,
        };
        if let Err(e) = s.complete(outcome) {
            assert_eq!(s.phase, InitPhase::Failed(e));
            assert_eq!(s.next_action(), InitAction::Abort(e));
        }
    }
}

#[test]
fn initialisation_sequence() {
    let mut commands = Vec::new();
    let mut op_cond_polls = 0;
    let mut card = |cmd: SdCommand| {
        commands.push(cmd);
        match cmd {
            SdCommand::SendIfCond(arg) => Some([arg & 0xfff, 0, 0, 0]),
            SdCommand::SdSendOpCond(_) => {
                op_cond_polls += 1;
                if op_cond_polls < 3 { Some([0x00ff_8000, 0, 0, 0]) } else { Some([0xc0ff_8000, 0, 0, 0]) }
            }
            SdCommand::AllSendCid => Some([1, 2, 3, 4]),
            SdCommand::SendRelativeAddr => Some([0x1234_0500, 0, 0, 0]),
            SdCommand::SendCsd(_) => Some([5, 6, 7, 8]),
            SdCommand::ResetClock | SdCommand::GoIdleState => None,
            _ => Some([0, 0, 0, 0]),
        }
    };
    let s = run_init(&mut card).unwrap();
    assert_eq!(s.phase, InitPhase::Ready);
    assert!(s.high_capacity);
    assert_eq!(s.rca, 0x1234);
    assert_eq!(s.cid, [1, 2, 3, 4]);
    assert_eq!(s.csd, [5, 6, 7, 8]);
    assert_eq!(s.bus_widths, 5);
    assert_eq!(
        commands,
        vec![
            SdCommand::ResetClock,
            SdCommand::ResetClock,
            SdCommand::GoIdleState,
            SdCommand::SendIfCond(0x1aa),
            SdCommand::AppCmd(0),
            SdCommand::SdSendOpCond(0x41ff_8000),
            SdCommand::AppCmd(0),
            SdCommand::SdSendOpCond(0x41ff_8000),
            SdCommand::AppCmd(0),
            SdCommand::SdSendOpCond(0x41ff_8000),
            SdCommand::AllSendCid,
            SdCommand::SendRelativeAddr,
            SdCommand::SendCsd(0x1234_0000),
            SdCommand::SelectCard(0x1234_0000),
            SdCommand::AppCmd(0x1234_0000),
            SdCommand::SendScr,
        ]
    );
}

#[test]
fn unsupported_version_is_reported() {
    let mut card = |cmd: SdCommand| match cmd {
        SdCommand::SendIfCond(_) => Some([0x1ab, 0, 0, 0]),
        _ => None,
    };
    assert_eq!(run_init(&mut card).unwrap_err(), InitError::UnsupportedVersion);
}

#[test]
fn failed_required_command_is_reported() {
    let mut card = |cmd: SdCommand| match cmd {
        SdCommand::SendIfCond(_) => Some([0xaa, 0, 0, 0]),
        SdCommand::SdSendOpCond(_) => Some([0x8000_0000, 0, 0, 0]),
        SdCommand::AllSendCid => None,
        _ => Some([0, 0, 0, 0]),
    };
    assert_eq!(run_init(&mut card).unwrap_err(), InitError::CommandFailed(SdCommand::AllSendCid));
}

#[test]
fn failed_initialisation_sends_nothing_more() {
    let mut s = SdInit::new();
    let mut sent = Vec::new();
    for _ in 0..40 {
        let outcome = match s.next_action() {
            InitAction::Send(cmd) => {
                sent.push(cmd);
                match cmd {
                    SdCommand::SendIfCond(_) => ActionOutcome::Response(Some([0x1ab, 0, 0, 0])),
                    _ => ActionOutcome::Response(None),
                }
            }
            InitAction::ReadFifoWord => ActionOutcome::FifoWord(0),
            _ => ActionOutcome::Done,
        };
        let _ = s.complete(outcome);
    }
    assert_eq!(s.next_action(), InitAction::Abort(InitError::UnsupportedVersion));
    assert_eq!(
        sent,
        vec![
            SdCommand::ResetClock,
            SdCommand::ResetClock,
            SdCommand::GoIdleState,
            SdCommand::SendIfCond(0x1aa),
        ]
    );
}

fn drive_command(mut issue: CmdIssue, error: bool, resp: [u32; 4]) -> (Vec<CmdAction>, CmdIssue) {
    let mut actions = Vec::new();
    for _ in 0..20 {
        let action = issue.next_action();
        actions.push(action);
        let event = match action {
            CmdAction::PollCommandSlot
            | CmdAction::PollDataSlot
            | CmdAction::PollCommandTaken
            | CmdAction::PollResponse => CmdEvent::Polled(true),
            CmdAction::ReadStatus => CmdEvent::Status(error, resp),
            CmdAction::Finished => break,
            _ => CmdEvent::Done,
        };
        issue.complete(event);
    }
    (actions, issue)
}

#[test]
fn command_with_data_and_response_follows_handshake() {
    let (actions, done) = drive_command(CmdIssue::new(true, true), false, [7, 8, 9, 10]);
    assert_eq!(
        actions,
        vec![
            CmdAction::PollCommandSlot,
            CmdAction::PollDataSlot,
            CmdAction::WriteArgument,
            CmdAction::WriteCommand,
            CmdAction::PollCommandTaken,
            CmdAction::PollResponse,
            CmdAction::TransferData,
            CmdAction::ReadStatus,
            CmdAction::Finished,
        ]
    );
    assert_eq!(done.phase, CmdPhase::Done);
    assert_eq!(done.result, Some(Some([7, 8, 9, 10])));
}

#[test]
fn command_without_data_or_response_skips_those_stages() {
    let (actions, done) = drive_command(CmdIssue::new(false, false), false, [1, 0, 0, 0]);
    assert_eq!(
        actions,
        vec![
            CmdAction::PollCommandSlot,
            CmdAction::WriteArgument,
            CmdAction::WriteCommand,
            CmdAction::PollCommandTaken,
            CmdAction::ReadStatus,
            CmdAction::Finished,
        ]
    );
    assert_eq!(done.result, Some(Some([1, 0, 0, 0])));
}

#[test]
fn command_error_status_gives_no_response() {
    let (_, done) = drive_command(CmdIssue::new(false, true), true, [5, 5, 5, 5]);
    assert_eq!(done.result, Some(None));
    assert_eq!(CmdIssue::response(true, [1, 2, 3, 4]), None);
    assert_eq!(CmdIssue::response(false, [1, 2, 3, 4]), Some([1, 2, 3, 4]));
}

#[test]
fn unanswered_poll_keeps_the_stage() {
    let mut issue = CmdIssue::new(true, false);
    issue.complete(CmdEvent::Polled(false));
    assert_eq!(issue.phase, CmdPhase::AwaitCommandSlot);
    issue.complete(CmdEvent::Polled(true));
    assert_eq!(issue.phase, CmdPhase::AwaitDataSlot);
    issue.complete(CmdEvent::Polled(false));
    assert_eq!(issue.next_action(), CmdAction::PollDataSlot);
}

#[test]
fn block_read_after_write_round_trip() {
    let mut data = [0u8; 512];
    for (i, b) in data.iter_mut().enumerate() {
        *b = (i * 37 % 251) as u8;
    }
    let mut sending = BlockTransfer::new();
    let mut words = Vec::new();
    while sending.write_word_wanted(0, 512) {
        words.push(sending.next_write_word(&data));
    }
    assert_eq!(words.len(), 64);
    let mut buf = [0xffu8; 512];
    let mut receiving = BlockTransfer::new();
    for w in words {
        receiving.accept_read_word(&mut buf, w);
    }
    assert_eq!(receiving.offset(), 512);
    assert_eq!(buf, data);
}
