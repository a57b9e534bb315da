//! The request dispatcher and the connection server.
//!
//! The server speaks a reduced form of HTTP: it looks at the method and the
//! path of a request and at nothing else, and answers with a status line
//! and, where there is something to say, a body with its length.

use vstd::prelude::*;
use vstd::slice::slice_subrange;
use vstd::string::*;
use crate::buffers::{response_bytes, response_from_slice};
use crate::tasks::measurement::{lemma_two_decimals_len, two_decimals, Measurement};
use crate::tasks::state::{EcState, HydroponicState, PhState, WaterLevelState};
use crate::text::{
    ascii, ascii_bytes, bytes_eq, decimal_digits, find_byte, first_index_of,
    lemma_decimal_digits_len, lemma_first_index_of, push_bytes, push_decimal,
};

verus! {

/// The port on which the server listens.
pub const PORT: u16 = 1234;

/// The milliseconds between two looks at the network configuration.
pub const CONFIG_POLL_MILLIS: u64 = 100;

/// The method of a request: what stands before its first space.
pub open spec fn request_method(request: Seq<u8>) -> Seq<u8> {
    request.take(first_index_of(request, 0x20))
}

/// The path of a request: what stands between its first space and its
/// second; empty where the request holds no space.
pub open spec fn request_path(request: Seq<u8>) -> Seq<u8> {
    let end = first_index_of(request, 0x20);
    if end < request.len() {
        let rest = request.skip(end + 1);
        rest.take(first_index_of(rest, 0x20))
    } else {
        Seq::empty()
    }
}

/// A classification with its reading: the word, a comma and the reading with
/// two decimals.
pub open spec fn reading_line(word: Seq<char>, reading: Measurement) -> Seq<u8> {
    ascii(word) + ascii(", "@) + two_decimals(reading)
}

/// What the server says of the conductivity.
pub open spec fn ec_body(ec: EcState) -> Seq<u8> {
    match ec {
        EcState::Good(reading) => reading_line("good"@, reading),
        EcState::High(reading) => reading_line("high"@, reading),
        EcState::Low(reading) => reading_line("low"@, reading),
        EcState::Unknown => ascii("unk"@),
    }
}

/// What the server says of the pH.
pub open spec fn ph_body(ph: PhState) -> Seq<u8> {
    match ph {
        PhState::Good(reading) => reading_line("good"@, reading),
        PhState::High(reading) => reading_line("high"@, reading),
        PhState::Low(reading) => reading_line("low"@, reading),
        PhState::Unknown => ascii("unk"@),
    }
}

/// What the server says of the water level.
pub open spec fn water_level_body(water_level: WaterLevelState) -> Seq<u8> {
    match water_level {
        WaterLevelState::Good => ascii("good"@),
        WaterLevelState::Low => ascii("low"@),
        WaterLevelState::Unknown => ascii("unknown"@),
    }
}

/// A successful response with a body: the status line, the length of the
/// body in bytes, a blank line and the body.
pub open spec fn ok_response(body: Seq<u8>) -> Seq<u8> {
    ascii("HTTP/1.1 200 OK\r\n"@) + ascii("Content-Length: "@) + decimal_digits(body.len())
        + ascii("\r\n\r\n"@) + body
}

/// The response to a request, given the state.
pub open spec fn response_to(request: Seq<u8>, state: HydroponicState) -> Seq<u8> {
    let method = request_method(request);
    let path = request_path(request);
    if method == ascii("GET"@) {
        if path == ascii("/"@) {
            ok_response(ascii("Hello, world!"@))
        } else if path == ascii("/ph"@) {
            ok_response(ph_body(state.ph))
        } else if path == ascii("/ec"@) {
            ok_response(ec_body(state.ec))
        } else if path == ascii("/waterlevel"@) {
            ok_response(water_level_body(state.water_level))
        } else {
            ascii("HTTP/1.1 404 NOT FOUND\r\n"@)
        }
    } else if method == ascii("HEAD"@) {
        ascii("HTTP/1.1 200 OK\r\n"@)
    } else {
        ascii("HTTP/1.1 501 Not Implemented\r\n"@)
    }
}

/// A classification with its reading takes at most seventeen bytes.
pub proof fn lemma_body_len(state: HydroponicState)
    ensures
        3 <= ec_body(state.ec).len() <= 17,
        3 <= ph_body(state.ph).len() <= 17,
        3 <= water_level_body(state.water_level).len() <= 7,
{
    reveal_strlit("good");
    reveal_strlit("high");
    reveal_strlit("low");
    reveal_strlit("unk");
    reveal_strlit("unknown");
    reveal_strlit(", ");
    match state.ec {
        EcState::Good(reading) | EcState::High(reading) | EcState::Low(reading) => {
            lemma_two_decimals_len(reading);
        },
        EcState::Unknown => {},
    }
    match state.ph {
        PhState::Good(reading) | PhState::High(reading) | PhState::Low(reading) => {
            lemma_two_decimals_len(reading);
        },
        PhState::Unknown => {},
    }
}

/// A successful response is thirty-eight bytes longer than a body of up to
/// nine bytes, and thirty-nine bytes longer than one of up to ninety-nine.
pub proof fn lemma_ok_response_len(body: Seq<u8>)
    requires
        body.len() < 100,
    ensures
        ok_response(body).len() == body.len() + (if body.len() < 10 {
            38nat
        } else {
            39nat
        }),
{
    reveal_strlit("HTTP/1.1 200 OK\r\n");
    reveal_strlit("Content-Length: ");
    reveal_strlit("\r\n\r\n");
    lemma_decimal_digits_len(body.len());
}

/// Whatever the request and the state, the response fits a buffer of 64
/// bytes.
pub proof fn response_fits(request: Seq<u8>, state: HydroponicState)
    ensures
        response_to(request, state).len() <= 64,
{
    reveal_strlit("Hello, world!");
    reveal_strlit("HTTP/1.1 404 NOT FOUND\r\n");
    reveal_strlit("HTTP/1.1 200 OK\r\n");
    reveal_strlit("HTTP/1.1 501 Not Implemented\r\n");
    lemma_body_len(state);
    lemma_ok_response_len(ascii("Hello, world!"@));
    lemma_ok_response_len(ph_body(state.ph));
    lemma_ok_response_len(ec_body(state.ec));
    lemma_ok_response_len(water_level_body(state.water_level));
}

/// Appends a successful response with `body` to `out`.
fn push_ok_response(out: &mut Vec<u8>, body: &[u8])
    requires
        body@.len() < 100,
    ensures
        final(out)@ == old(out)@ + ok_response(body@),
{
    proof {
        reveal_strlit("HTTP/1.1 200 OK\r\n");
        reveal_strlit("Content-Length: ");
        reveal_strlit("\r\n\r\n");
    }
    push_bytes(out, ascii_bytes("HTTP/1.1 200 OK\r\n"));
    push_bytes(out, ascii_bytes("Content-Length: "));
    push_decimal(out, body.len() as u32);
    push_bytes(out, ascii_bytes("\r\n\r\n"));
    push_bytes(out, body);
    proof {
        assert(out@ =~= old(out)@ + ok_response(body@));
    }
}

/// Appends a classification with its reading to `out`.
fn push_reading_line(out: &mut Vec<u8>, word: &str, reading: Measurement)
    requires
        is_ascii(word),
    ensures
        final(out)@ == old(out)@ + reading_line(word@, reading),
{
    proof {
        reveal_strlit(", ");
    }
    push_bytes(out, ascii_bytes(word));
    push_bytes(out, ascii_bytes(", "));
    reading.push_two_decimals(out);
    proof {
        assert(out@ =~= old(out)@ + reading_line(word@, reading));
    }
}

/// Renders the conductivity.
fn render_ec(ec: EcState) -> (body: Vec<u8>)
    ensures
        body@ == ec_body(ec),
{
    proof {
        reveal_strlit("good");
        reveal_strlit("high");
        reveal_strlit("low");
        reveal_strlit("unk");
    }
    let mut body: Vec<u8> = Vec::new();
    match ec {
        EcState::Good(reading) => push_reading_line(&mut body, "good", reading),
        EcState::High(reading) => push_reading_line(&mut body, "high", reading),
        EcState::Low(reading) => push_reading_line(&mut body, "low", reading),
        EcState::Unknown => push_bytes(&mut body, ascii_bytes("unk")),
    }
    body
}

/// Renders the pH.
fn render_ph(ph: PhState) -> (body: Vec<u8>)
    ensures
        body@ == ph_body(ph),
{
    proof {
        reveal_strlit("good");
        reveal_strlit("high");
        reveal_strlit("low");
        reveal_strlit("unk");
    }
    let mut body: Vec<u8> = Vec::new();
    match ph {
        PhState::Good(reading) => push_reading_line(&mut body, "good", reading),
        PhState::High(reading) => push_reading_line(&mut body, "high", reading),
        PhState::Low(reading) => push_reading_line(&mut body, "low", reading),
        PhState::Unknown => push_bytes(&mut body, ascii_bytes("unk")),
    }
    body
}

/// Renders the water level.
fn render_water_level(water_level: WaterLevelState) -> (body: &'static [u8])
    ensures
        body@ == water_level_body(water_level),
{
    proof {
        reveal_strlit("good");
        reveal_strlit("low");
        reveal_strlit("unknown");
    }
    match water_level {
        WaterLevelState::Good => ascii_bytes("good"),
        WaterLevelState::Low => ascii_bytes("low"),
        WaterLevelState::Unknown => ascii_bytes("unknown"),
    }
}

/// Answers one request from the state.
pub fn handle_request(req: &[u8], state: &HydroponicState) -> (response: heapless::Vec<u8, 64>)
    ensures
        response_bytes(response) == response_to(req@, *state),
{
    proof {
        reveal_strlit("GET");
        reveal_strlit("HEAD");
        reveal_strlit("/");
        reveal_strlit("/ph");
        reveal_strlit("/ec");
        reveal_strlit("/waterlevel");
        reveal_strlit("Hello, world!");
        reveal_strlit("HTTP/1.1 404 NOT FOUND\r\n");
        reveal_strlit("HTTP/1.1 200 OK\r\n");
        reveal_strlit("HTTP/1.1 501 Not Implemented\r\n");
        lemma_body_len(*state);
        response_fits(req@, *state);
    }
    let method_end: usize = find_byte(req, 0, 0x20);
    let method = slice_subrange(req, 0, method_end);
    let path = if method_end < req.len() {
        let path_end: usize = find_byte(req, method_end + 1, 0x20);
        slice_subrange(req, method_end + 1, path_end)
    } else {
        slice_subrange(req, 0, 0)
    };
    proof {
        assert(req@.skip(0) =~= req@);
        assert(method@ =~= request_method(req@));
        assert(path@ =~= request_path(req@));
    }
    let mut out: Vec<u8> = Vec::new();
    if bytes_eq(method, ascii_bytes("GET")) {
        if bytes_eq(path, ascii_bytes("/")) {
            push_ok_response(&mut out, ascii_bytes("Hello, world!"));
        } else if bytes_eq(path, ascii_bytes("/ph")) {
            let body = render_ph(state.ph);
            push_ok_response(&mut out, body.as_slice());
        } else if bytes_eq(path, ascii_bytes("/ec")) {
            let body = render_ec(state.ec);
            push_ok_response(&mut out, body.as_slice());
        } else if bytes_eq(path, ascii_bytes("/waterlevel")) {
            push_ok_response(&mut out, render_water_level(state.water_level));
        } else {
            push_bytes(&mut out, ascii_bytes("HTTP/1.1 404 NOT FOUND\r\n"));
        }
    } else if bytes_eq(method, ascii_bytes("HEAD")) {
        push_bytes(&mut out, ascii_bytes("HTTP/1.1 200 OK\r\n"));
    } else {
        push_bytes(&mut out, ascii_bytes("HTTP/1.1 501 Not Implemented\r\n"));
    }
    proof {
        assert(out@ =~= response_to(req@, *state));
    }
    match response_from_slice(out.as_slice()) {
        Ok(response) => response,
        Err(_) => unreached(),
    }
}

/// What the server is told.
#[derive(Debug, Clone, Copy, PartialEq, Eq)]
pub enum HostEvent<'a> {
    /// The server starts.
    Started,
    /// The network was joined.
    Joined,
    /// The network could not be joined.
    JoinFailed,
    /// The network configuration is up.
    ConfigUp,
    /// The network configuration is not up yet.
    ConfigDown,
    /// The pause is over.
    Paused,
    /// The attempt to accept a connection is over.
    Accepted,
    /// These bytes were read from the connection; none means that the peer
    /// has closed it.
    Received(&'a [u8]),
    /// Reading from the connection failed.
    ReadFailed,
    /// The response was written.
    Written,
    /// Writing the response failed.
    WriteFailed,
}

/// What the server asks for.
#[derive(Debug, PartialEq, Eq)]
pub enum HostAction {
    /// Join the network with its password.
    JoinWpa2,
    /// Join the network, which has no password.
    JoinOpen,
    /// Say whether the network configuration is up.
    CheckConfig,
    /// Let `millis` milliseconds pass.
    Pause { millis: u64 },
    /// Drop the connection, if there is one, and accept the next on `port`.
    Accept { port: u16 },
    /// Read what the connection has to offer.
    Read,
    /// Write the whole response to the connection.
    Write(heapless::Vec<u8, 64>),
}

/// A [`HostAction`] with its bytes as a sequence.
pub enum HostActionModel {
    JoinWpa2,
    JoinOpen,
    CheckConfig,
    Pause { millis: u64 },
    Accept { port: u16 },
    Read,
    Write(Seq<u8>),
}

impl View for HostAction {
    type V = HostActionModel;

    open spec fn view(&self) -> HostActionModel {
        match *self {
            HostAction::JoinWpa2 => HostActionModel::JoinWpa2,
            HostAction::JoinOpen => HostActionModel::JoinOpen,
            HostAction::CheckConfig => HostActionModel::CheckConfig,
            HostAction::Pause { millis } => HostActionModel::Pause { millis },
            HostAction::Accept { port } => HostActionModel::Accept { port },
            HostAction::Read => HostActionModel::Read,
            HostAction::Write(response) => HostActionModel::Write(response_bytes(response)),
        }
    }
}

/// What the server does next. It joins the network until that succeeds and
/// waits until the configuration is up. Then it serves one connection at a
/// time: it accepts, reads once, answers what it read and accepts again. A
/// connection that closes or fails is given up for the next one, and so is
/// one whose response could not be written.
pub open spec fn hosting_reaction<'a>(
    secured: bool,
    event: HostEvent<'a>,
    state: HydroponicState,
) -> HostActionModel {
    match event {
        HostEvent::Started | HostEvent::JoinFailed => if secured {
            HostActionModel::JoinWpa2
        } else {
            HostActionModel::JoinOpen
        },
        HostEvent::Joined | HostEvent::Paused => HostActionModel::CheckConfig,
        HostEvent::ConfigDown => HostActionModel::Pause { millis: CONFIG_POLL_MILLIS },
        HostEvent::ConfigUp => HostActionModel::Accept { port: PORT },
        HostEvent::Accepted => HostActionModel::Read,
        HostEvent::Received(request) => if request@.len() == 0 {
            HostActionModel::Accept { port: PORT }
        } else {
            HostActionModel::Write(response_to(request@, state))
        },
        HostEvent::ReadFailed | HostEvent::Written | HostEvent::WriteFailed
            => HostActionModel::Accept { port: PORT },
    }
}

/// The connection server: given what happened, says what to do next.
/// `secured` tells whether the network has a password.
pub fn begin_hosting_task<'a>(secured: bool, event: HostEvent<'a>, state: &HydroponicState) -> (action:
    HostAction)
    ensures
        action@ == hosting_reaction(secured, event, *state),
{
    match event {
        HostEvent::Started | HostEvent::JoinFailed => if secured {
            HostAction::JoinWpa2
        } else {
            HostAction::JoinOpen
        },
        HostEvent::Joined | HostEvent::Paused => HostAction::CheckConfig,
        HostEvent::ConfigDown => HostAction::Pause { millis: CONFIG_POLL_MILLIS },
        HostEvent::ConfigUp => HostAction::Accept { port: PORT },
        HostEvent::Accepted => HostAction::Read,
        HostEvent::Received(request) => if request.len() == 0 {
            HostAction::Accept { port: PORT }
        } else {
            HostAction::Write(handle_request(request, state))
        },
        HostEvent::ReadFailed | HostEvent::Written | HostEvent::WriteFailed => HostAction::Accept {
            port: PORT,
        },
    }
}

} // verus!
