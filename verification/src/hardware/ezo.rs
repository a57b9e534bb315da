//! Protocol driver for EZO sensor boards on a shared I2C bus.
//!
//! A command is an ASCII token written to the board's address. A board that
//! replies does so, after a settle delay, with a frame of [`FRAME_LEN`]
//! bytes: a status code followed by a NUL-padded payload.

use vstd::prelude::*;
use vstd::slice::slice_subrange;
use vstd::string::*;
use vstd::utf8::{
    is_char_boundary, is_char_boundary_iff_not_is_continuation_byte,
    is_char_boundary_start_end_of_seq, valid_utf8,
};
use crate::buffers::{payload_bytes, payload_from_str, text_from_utf8, utf8_error_of};
use crate::text::{ascii, ascii_bytes};

verus! {

/// The commands of an EZO board.
#[derive(Debug, Clone, Copy, PartialEq, Eq, Structural)]
#[allow(unused)]
pub enum EzoCommand {
    Baud,
    Calibrate,
    FactoryReset,
    Find,
    Info,
    I2c,
    Led,
    Name,
    Sleep,
    Read,
    Status,
    TempCompensation,
    TempCompAndRead,
}

impl EzoCommand {
    /// The ASCII token that stands for the command on the wire.
    pub open spec fn token(self) -> Seq<char> {
        match self {
            Self::Baud => "Baud"@,
            Self::Calibrate => "Cal"@,
            Self::FactoryReset => "Factory"@,
            Self::Find => "Find"@,
            Self::Info => "i"@,
            Self::I2c => "I2C"@,
            Self::Led => "L"@,
            Self::Name => "Name"@,
            Self::Read => "R"@,
            Self::Sleep => "Sleep"@,
            Self::Status => "Status"@,
            Self::TempCompensation => "T"@,
            Self::TempCompAndRead => "RT"@,
        }
    }

    /// The bytes written to the bus for the command: its token, without a
    /// terminator.
    pub open spec fn wire_encoding(self) -> Seq<u8> {
        ascii(self.token())
    }

    /// The time, in milliseconds, that the board needs before its reply is
    /// ready, or `None` for a command that is never answered. No delay is
    /// defined for [`EzoCommand::Calibrate`].
    pub open spec fn settle_delay_ms(self) -> Option<u32>
        recommends
            self !is Calibrate,
    {
        match self {
            Self::Read | Self::TempCompAndRead => Some(900u32),
            Self::Led | Self::Find | Self::TempCompensation | Self::Name | Self::Info
            | Self::Status => Some(300u32),
            Self::Sleep | Self::I2c | Self::FactoryReset | Self::Baud => None,
            Self::Calibrate => arbitrary(),
        }
    }

    /// The bytes to write to the bus for the command.
    pub fn to_byte_string(&self) -> (res: &'static [u8])
        ensures
            res@ == self.wire_encoding(),
    {
        proof {
            reveal_strlit("Baud");
            reveal_strlit("Cal");
            reveal_strlit("Factory");
            reveal_strlit("Find");
            reveal_strlit("i");
            reveal_strlit("I2C");
            reveal_strlit("L");
            reveal_strlit("Name");
            reveal_strlit("R");
            reveal_strlit("Sleep");
            reveal_strlit("Status");
            reveal_strlit("T");
            reveal_strlit("RT");
        }
        match self {
            Self::Baud => ascii_bytes("Baud"),
            Self::Calibrate => ascii_bytes("Cal"),
            Self::FactoryReset => ascii_bytes("Factory"),
            Self::Find => ascii_bytes("Find"),
            Self::Info => ascii_bytes("i"),
            Self::I2c => ascii_bytes("I2C"),
            Self::Led => ascii_bytes("L"),
            Self::Name => ascii_bytes("Name"),
            Self::Read => ascii_bytes("R"),
            Self::Sleep => ascii_bytes("Sleep"),
            Self::Status => ascii_bytes("Status"),
            Self::TempCompensation => ascii_bytes("T"),
            Self::TempCompAndRead => ascii_bytes("RT"),
        }
    }

    /// The settle delay of the command in milliseconds, or `None` for a
    /// command that is never answered.
    pub fn get_cmd_delay_ms(&self) -> (res: Option<u32>)
        requires
            self !is Calibrate,
        ensures
            res == self.settle_delay_ms(),
    {
        match self {
            Self::Led => Some(300),
            Self::Find => Some(300),
            Self::Read => Some(900),
            Self::Calibrate => unreached(),
            Self::TempCompensation => Some(300),
            Self::TempCompAndRead => Some(900),
            Self::Name => Some(300),
            Self::Info => Some(300),
            Self::Status => Some(300),
            Self::Sleep => None,
            Self::I2c => None,
            Self::FactoryReset => None,
            Self::Baud => None,
        }
    }
}

/// The length of a reply frame in bytes, status code included.
pub const FRAME_LEN: usize = 40;

/// The ways in which an exchange with a board fails.
#[derive(Debug, Clone, Copy, PartialEq, Eq)]
pub enum EzoBoardError {
    /// The bus did not carry out a transfer.
    I2c,
    /// The payload of a frame is not UTF-8.
    Utf8Error(core::str::Utf8Error),
    /// The payload of a frame does not fit the string that holds it.
    StringParseError,
    /// The board had no reply ready yet.
    NotReady,
    /// The board had nothing to send.
    NoData,
    /// The board did not understand the command.
    SyntaxError,
    /// The frame starts with a status code that the protocol does not define.
    Unknown,
    /// The command is one that a board never answers.
    NoResponsePossible,
}

/// `bytes` without the NUL bytes that pad its end.
pub open spec fn trim_trailing_nuls(bytes: Seq<u8>) -> Seq<u8>
    decreases bytes.len(),
{
    if bytes.len() > 0 && bytes.last() == 0 {
        trim_trailing_nuls(bytes.drop_last())
    } else {
        bytes
    }
}

/// What a frame says. The first byte is the status code: 1 announces a
/// payload, which is the rest of the frame read as UTF-8 text and stripped of
/// its padding; 2, 254 and 255 are the board's own errors; every other code
/// is unknown.
pub open spec fn decode_frame(frame: Seq<u8>) -> Result<Seq<u8>, EzoBoardError> {
    let body = frame.skip(1);
    if frame[0] == 1 {
        if valid_utf8(body) {
            Ok(trim_trailing_nuls(body))
        } else {
            Err(EzoBoardError::Utf8Error(utf8_error_of(body)))
        }
    } else if frame[0] == 2 {
        Err(EzoBoardError::SyntaxError)
    } else if frame[0] == 254 {
        Err(EzoBoardError::NotReady)
    } else if frame[0] == 255 {
        Err(EzoBoardError::NoData)
    } else {
        Err(EzoBoardError::Unknown)
    }
}

/// The outcome of an exchange, with the payload as the bytes it holds.
pub open spec fn reply_model(reply: Result<heapless::String<40>, EzoBoardError>) -> Result<
    Seq<u8>,
    EzoBoardError,
> {
    match reply {
        Ok(payload) => Ok(payload_bytes(payload)),
        Err(error) => Err(error),
    }
}

/// What the driver asks of whoever owns the bus.
#[derive(Debug, PartialEq, Eq)]
pub enum BusRequest {
    /// Write `bytes` to the board at `address`.
    Write { address: u8, bytes: &'static [u8] },
    /// Let `millis` milliseconds pass.
    Wait { millis: u64 },
    /// Read a frame of [`FRAME_LEN`] bytes from the board at `address`.
    Read { address: u8 },
    /// The exchange is over, with this outcome.
    Finish(Result<heapless::String<40>, EzoBoardError>),
}

/// A [`BusRequest`] with its bytes as sequences.
pub enum BusRequestModel {
    Write { address: u8, bytes: Seq<u8> },
    Wait { millis: u64 },
    Read { address: u8 },
    Finish(Result<Seq<u8>, EzoBoardError>),
}

impl View for BusRequest {
    type V = BusRequestModel;

    open spec fn view(&self) -> BusRequestModel {
        match *self {
            BusRequest::Write { address, bytes } => BusRequestModel::Write { address, bytes: bytes@ },
            BusRequest::Wait { millis } => BusRequestModel::Wait { millis },
            BusRequest::Read { address } => BusRequestModel::Read { address },
            BusRequest::Finish(reply) => BusRequestModel::Finish(reply_model(reply)),
        }
    }
}

/// How the request before went.
#[derive(Debug, Clone, Copy, PartialEq, Eq)]
pub enum BusEvent {
    /// The bytes were written.
    Written,
    /// The bus failed to write.
    WriteFailed,
    /// The time has passed.
    Elapsed,
    /// This frame was read.
    Frame([u8; 40]),
    /// The bus failed to read.
    ReadFailed,
}

/// The number of bytes of `bytes` that are left without its padding.
fn trimmed_len(bytes: &[u8]) -> (len: usize)
    ensures
        len <= bytes@.len(),
        bytes@.take(len as int) == trim_trailing_nuls(bytes@),
        len < bytes@.len() ==> bytes@[len as int] == 0,
{
    let mut len: usize = bytes.len();
    proof {
        assert(bytes@.take(len as int) =~= bytes@);
    }
    while len > 0 && bytes[len - 1] == 0
        invariant
            len <= bytes@.len(),
            trim_trailing_nuls(bytes@.take(len as int)) == trim_trailing_nuls(bytes@),
            len < bytes@.len() ==> bytes@[len as int] == 0,
        decreases len,
    {
        proof {
            assert(bytes@.take(len as int).drop_last() =~= bytes@.take(len as int - 1));
        }
        len = len - 1;
    }
    len
}

/// One board on the bus.
///
/// The driver never touches the bus. It hands out [`BusRequest`]s and is told
/// in [`BusEvent`]s how each went.
#[derive(Debug, Clone, Copy, PartialEq, Eq)]
pub struct EzoBoard {
    address: u8,
    settle_ms: u32,
}

impl EzoBoard {
    /// The board's address on the bus.
    pub closed spec fn address(&self) -> u8 {
        self.address
    }

    /// The settle delay of the command sent last, in milliseconds.
    pub closed spec fn settle_ms(&self) -> u32 {
        self.settle_ms
    }

    /// What the driver asks for after `event`: a written command is left to
    /// settle, then a frame is read and decoded; a transfer that failed ends
    /// the exchange.
    pub open spec fn reaction(&self, event: BusEvent) -> BusRequestModel {
        match event {
            BusEvent::Written => BusRequestModel::Wait { millis: self.settle_ms() as u64 },
            BusEvent::Elapsed => BusRequestModel::Read { address: self.address() },
            BusEvent::Frame(frame) => BusRequestModel::Finish(decode_frame(frame@)),
            BusEvent::WriteFailed | BusEvent::ReadFailed => BusRequestModel::Finish(
                Err(EzoBoardError::I2c),
            ),
        }
    }

    /// The board at `address`, to which no command was sent yet.
    pub fn new(address: u8) -> (board: Self)
        ensures
            board.address() == address,
            board.settle_ms() == 0,
    {
        EzoBoard { address, settle_ms: 0 }
    }

    /// Asks for the command to be written to the board.
    pub fn send_command(&self, command: EzoCommand) -> (request: BusRequest)
        ensures
            request@ == (BusRequestModel::Write {
                address: self.address(),
                bytes: command.wire_encoding(),
            }),
    {
        BusRequest::Write { address: self.address, bytes: command.to_byte_string() }
    }

    /// Decodes a frame that was read from the board.
    pub fn read_response(&self, frame: &[u8; 40]) -> (reply: Result<
        heapless::String<40>,
        EzoBoardError,
    >)
        ensures
            reply_model(reply) == decode_frame(frame@),
            frame@[0] == 1 ==> reply is Ok || reply matches Err(EzoBoardError::Utf8Error(_)),
            frame@[0] == 2 ==> reply == Err::<heapless::String<40>, _>(EzoBoardError::SyntaxError),
            frame@[0] == 254 ==> reply == Err::<heapless::String<40>, _>(EzoBoardError::NotReady),
            frame@[0] == 255 ==> reply == Err::<heapless::String<40>, _>(EzoBoardError::NoData),
            frame@[0] != 1 && frame@[0] != 2 && frame@[0] != 254 && frame@[0] != 255 ==> reply
                == Err::<heapless::String<40>, _>(EzoBoardError::Unknown),
    {
        let status: u8 = frame[0];
        if status == 1 {
            let body = slice_subrange(frame.as_slice(), 1, FRAME_LEN);
            proof {
                assert(body@ =~= frame@.skip(1));
            }
            match text_from_utf8(body) {
                Ok(text) => {
                    let len: usize = trimmed_len(text.as_bytes());
                    proof {
                        if len < body@.len() {
                            is_char_boundary_iff_not_is_continuation_byte(body@, len as int);
                        } else {
                            is_char_boundary_start_end_of_seq(body@);
                        }
                        assert(is_char_boundary(text.spec_bytes(), len as int));
                    }
                    let (kept, _) = text.split_at(len);
                    proof {
                        assert(kept.spec_bytes() =~= trim_trailing_nuls(body@));
                    }
                    match payload_from_str(kept) {
                        Ok(payload) => Ok(payload),
                        Err(_) => Err(EzoBoardError::StringParseError),
                    }
                },
                Err(error) => Err(EzoBoardError::Utf8Error(error)),
            }
        } else if status == 2 {
            Err(EzoBoardError::SyntaxError)
        } else if status == 254 {
            Err(EzoBoardError::NotReady)
        } else if status == 255 {
            Err(EzoBoardError::NoData)
        } else {
            Err(EzoBoardError::Unknown)
        }
    }

    /// Starts an exchange: the command is to be written, unless it is one
    /// that a board never answers, in which case the exchange is over before
    /// anything is asked of the bus.
    pub fn send_and_recieve(&mut self, command: EzoCommand) -> (request: BusRequest)
        requires
            command !is Calibrate,
        ensures
            final(self).address() == old(self).address(),
            match command.settle_delay_ms() {
                Some(delay) => {
                    &&& final(self).settle_ms() == delay
                    &&& request@ == (BusRequestModel::Write {
                        address: old(self).address(),
                        bytes: command.wire_encoding(),
                    })
                },
                None => {
                    &&& *final(self) == *old(self)
                    &&& request@ == BusRequestModel::Finish(
                        Err(EzoBoardError::NoResponsePossible),
                    )
                },
            },
    {
        match command.get_cmd_delay_ms() {
            Some(delay) => {
                self.settle_ms = delay;
                self.send_command(command)
            },
            None => BusRequest::Finish(Err(EzoBoardError::NoResponsePossible)),
        }
    }

    /// Carries the exchange on after `event`.
    pub fn resume(&self, event: BusEvent) -> (request: BusRequest)
        ensures
            request@ == self.reaction(event),
    {
        match event {
            BusEvent::Written => BusRequest::Wait { millis: self.settle_ms as u64 },
            BusEvent::Elapsed => BusRequest::Read { address: self.address },
            BusEvent::Frame(frame) => BusRequest::Finish(self.read_response(&frame)),
            BusEvent::WriteFailed => BusRequest::Finish(Err(EzoBoardError::I2c)),
            BusEvent::ReadFailed => BusRequest::Finish(Err(EzoBoardError::I2c)),
        }
    }
}

} // verus!
