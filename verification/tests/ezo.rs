use hydroponics::hardware::ezo::{
    BusEvent, BusRequest, EzoBoard, EzoBoardError, EzoCommand, FRAME_LEN,
};

fn frame_with(status: u8, payload: &[u8]) -> [u8; 40] {
    let mut frame = [0u8; 40];
    frame[0] = status;
    frame[1..1 + payload.len()].copy_from_slice(payload);
    frame
}

const ALL_COMMANDS: [EzoCommand; 13] = [
    EzoCommand::Baud,
    EzoCommand::Calibrate,
    EzoCommand::FactoryReset,
    EzoCommand::Find,
    EzoCommand::Info,
    EzoCommand::I2c,
    EzoCommand::Led,
    EzoCommand::Name,
    EzoCommand::Sleep,
    EzoCommand::Read,
    EzoCommand::Status,
    EzoCommand::TempCompensation,
    EzoCommand::TempCompAndRead,
];

#[test]
fn every_command_has_its_token() {
    let tokens: [&[u8]; 13] = [
        b"Baud", b"Cal", b"Factory", b"Find", b"i", b"I2C", b"L", b"Name", b"Sleep", b"R",
        b"Status", b"T", b"RT",
    ];
    for (command, token) in ALL_COMMANDS.iter().zip(tokens.iter()) {
        assert_eq!(command.to_byte_string(), *token);
    }
}

#[test]
fn reads_settle_for_900_ms() {
    assert_eq!(EzoCommand::Read.get_cmd_delay_ms(), Some(900));
    assert_eq!(EzoCommand::TempCompAndRead.get_cmd_delay_ms(), Some(900));
}

#[test]
fn short_commands_settle_for_300_ms() {
    for command in [
        EzoCommand::Led,
        EzoCommand::Find,
        EzoCommand::Status,
        EzoCommand::Name,
        EzoCommand::TempCompensation,
        EzoCommand::Info,
    ] {
        assert_eq!(command.get_cmd_delay_ms(), Some(300));
    }
}

#[test]
fn commands_without_reply_have_no_delay() {
    for command in [
        EzoCommand::Sleep,
        EzoCommand::FactoryReset,
        EzoCommand::Baud,
        EzoCommand::I2c,
    ] {
        assert_eq!(command.get_cmd_delay_ms(), None);
    }
}

#[test]
fn frame_is_forty_bytes() {
    assert_eq!(FRAME_LEN, 40);
}

#[test]
fn status_one_returns_the_payload() {
    let board = EzoBoard::new(0x20);
    let reply = board.read_response(&frame_with(1, b"7.402")).unwrap();
    assert_eq!(reply.as_str(), "7.402");
}

#[test]
fn every_status_byte_is_classified() {
    let board = EzoBoard::new(0x20);
    for status in 0..=255u8 {
        let reply = board.read_response(&frame_with(status, b"1413"));
        match status {
            1 => assert_eq!(reply.unwrap().as_str(), "1413"),
            2 => assert_eq!(reply, Err(EzoBoardError::SyntaxError)),
            254 => assert_eq!(reply, Err(EzoBoardError::NotReady)),
            255 => assert_eq!(reply, Err(EzoBoardError::NoData)),
            _ => assert_eq!(reply, Err(EzoBoardError::Unknown)),
        }
    }
}

#[test]
fn payload_loses_its_padding_only() {
    let board = EzoBoard::new(0x21);
    let reply = board.read_response(&frame_with(1, b"1\x002")).unwrap();
    assert_eq!(reply.as_str(), "1\u{0}2");
    let empty = board.read_response(&frame_with(1, b"")).unwrap();
    assert_eq!(empty.as_str(), "");
}

#[test]
fn payload_may_fill_the_frame() {
    let board = EzoBoard::new(0x21);
    let full = [b'9'; 39];
    let reply = board.read_response(&frame_with(1, &full)).unwrap();
    assert_eq!(reply.len(), 39);
    assert_eq!(reply.as_bytes(), &full[..]);
}

#[test]
fn payload_may_be_text_beyond_ascii() {
    let board = EzoBoard::new(0x21);
    let reply = board.read_response(&frame_with(1, "21.5 °C".as_bytes())).unwrap();
    assert_eq!(reply.as_str(), "21.5 °C");
}

#[test]
fn payload_that_is_not_text_is_refused() {
    let board = EzoBoard::new(0x21);
    let frame = frame_with(1, &[b'7', 0xFF, b'4']);
    let expected = core::str::from_utf8(&frame[1..]).unwrap_err();
    assert_eq!(board.read_response(&frame), Err(EzoBoardError::Utf8Error(expected)));
    assert_eq!(expected.valid_up_to(), 1);
}

#[test]
fn text_cut_short_by_padding_is_refused() {
    let board = EzoBoard::new(0x21);
    let frame = frame_with(1, &[b'7', 0xE2]);
    let expected = core::str::from_utf8(&frame[1..]).unwrap_err();
    assert_eq!(board.read_response(&frame), Err(EzoBoardError::Utf8Error(expected)));
    assert_eq!(expected.error_len(), Some(1));
}

#[test]
fn send_command_writes_the_token_to_the_board() {
    let board = EzoBoard::new(0x63);
    assert_eq!(
        board.send_command(EzoCommand::Status),
        BusRequest::Write { address: 0x63, bytes: b"Status" }
    );
    assert_eq!(
        board.send_command(EzoCommand::Sleep),
        BusRequest::Write { address: 0x63, bytes: b"Sleep" }
    );
}

#[test]
fn query_without_reply_asks_nothing_of_the_bus() {
    for command in [
        EzoCommand::Sleep,
        EzoCommand::FactoryReset,
        EzoCommand::Baud,
        EzoCommand::I2c,
    ] {
        let mut board = EzoBoard::new(0x20);
        let before = board;
        assert_eq!(
            board.send_and_recieve(command),
            BusRequest::Finish(Err(EzoBoardError::NoResponsePossible))
        );
        assert_eq!(board, before);
    }
}

#[test]
fn query_runs_write_wait_read_decode() {
    let mut board = EzoBoard::new(0x20);
    assert_eq!(
        board.send_and_recieve(EzoCommand::Read),
        BusRequest::Write { address: 0x20, bytes: b"R" }
    );
    assert_eq!(board.resume(BusEvent::Written), BusRequest::Wait { millis: 900 });
    assert_eq!(board.resume(BusEvent::Elapsed), BusRequest::Read { address: 0x20 });
    match board.resume(BusEvent::Frame(frame_with(1, b"1100.5"))) {
        BusRequest::Finish(Ok(payload)) => assert_eq!(payload.as_str(), "1100.5"),
        other => panic!("unexpected request {:?}", other),
    }
}

#[test]
fn query_waits_as_long_as_its_command_needs() {
    let mut board = EzoBoard::new(0x21);
    board.send_and_recieve(EzoCommand::Read);
    assert_eq!(board.resume(BusEvent::Written), BusRequest::Wait { millis: 900 });
    board.send_and_recieve(EzoCommand::Led);
    assert_eq!(board.resume(BusEvent::Written), BusRequest::Wait { millis: 300 });
    board.send_and_recieve(EzoCommand::Sleep);
    assert_eq!(board.resume(BusEvent::Written), BusRequest::Wait { millis: 300 });
}

#[test]
fn bus_failures_end_the_query() {
    let mut board = EzoBoard::new(0x20);
    board.send_and_recieve(EzoCommand::Read);
    assert_eq!(
        board.resume(BusEvent::WriteFailed),
        BusRequest::Finish(Err(EzoBoardError::I2c))
    );
    assert_eq!(
        board.resume(BusEvent::ReadFailed),
        BusRequest::Finish(Err(EzoBoardError::I2c))
    );
}

#[test]
fn query_passes_the_board_error_on() {
    let mut board = EzoBoard::new(0x20);
    board.send_and_recieve(EzoCommand::Read);
    assert_eq!(
        board.resume(BusEvent::Frame(frame_with(254, b""))),
        BusRequest::Finish(Err(EzoBoardError::NotReady))
    );
    assert_eq!(
        board.resume(BusEvent::Frame(frame_with(255, b""))),
        BusRequest::Finish(Err(EzoBoardError::NoData))
    );
    assert_eq!(
        board.resume(BusEvent::Frame(frame_with(2, b""))),
        BusRequest::Finish(Err(EzoBoardError::SyntaxError))
    );
    assert_eq!(
        board.resume(BusEvent::Frame(frame_with(0, b"7.0"))),
        BusRequest::Finish(Err(EzoBoardError::Unknown))
    );
}
