//! A call: the conversation with the voice server, and the audio packets that
//! are sent and received.

use crate::audio_io::{drained, refreshed, AudioInput};
use crate::error::{Error, ReadError};
use crate::gateway::{chars, CallInformation};
use crate::json::{
    json_as_array, json_as_u64, json_contents, json_field, json_parsed, number_field, parse_json,
    text_field, Json, LONGEST_TEXT,
};
use crate::payload::{
    conveys, select_protocol, select_protocol_message, speaking, speaking_message, voice_heartbeat,
    voice_heartbeat_message, voice_identify, voice_identify_message,
};
use crate::rtp::{
    build_discovery_request, build_voice_packet, carries, discovered_address, discovered_port,
    discovery_request, header, lemma_nonce_tells_packets_apart, nonce, open_voice_packet,
    read_discovery_answer, voice_packet, voice_payload, PacketError, HEADER_SIZE, MAX_PAYLOAD,
    PACKET_BUFFER_SIZE,
};
use crate::secretbox::TAG_SIZE;
use crate::text::{append_decimal, decimal};
use serde_json::Value;
use vstd::prelude::*;
use vstd::string::StringExecFns;
use vstd::utf8::{decode_utf8, valid_utf8};

verus! {

/// The local address to which the UDP socket is bound.
pub const LOCAL_ADDRESS: &'static str = "0.0.0.0:3211";

/// Milliseconds from one audio packet to the next.
pub const FRAME_MILLISECONDS: u64 = 20;

/// Samples per channel in one audio packet.
pub const FRAME_SAMPLES: usize = 960;

/// The number of the last packet of silence, counted from zero.
pub const LAST_SILENCE_FRAME: u8 = 5;

/// Whether we are speaking.
#[derive(Debug, Clone, Copy, PartialEq, Eq, Structural)]
pub enum SendingState {
    NotSending,
    Sending,
    /// We have stopped speaking, and the packet of silence with this number is
    /// due.
    SilenceFrame(u8),
}

/// The part of a voice message that is looked at. Fields that are missing or
/// of another type are `None`.
#[derive(Debug, PartialEq, Eq)]
pub struct VoiceFrame {
    pub op: Option<u64>,
    pub ip: Option<String>,
    pub port: Option<u64>,
    pub ssrc: Option<u64>,
    /// The items of the key, each `None` where it is no number.
    pub secret_key: Option<Vec<Option<u64>>>,
    pub heartbeat_interval: Option<u64>,
}

/// What a voice frame says.
#[verifier::ext_equal]
pub struct VoiceFrameView {
    pub op: Option<u64>,
    pub ip: Option<Seq<char>>,
    pub port: Option<u64>,
    pub ssrc: Option<u64>,
    pub secret_key: Option<Seq<Option<u64>>>,
    pub heartbeat_interval: Option<u64>,
}

impl View for VoiceFrame {
    type V = VoiceFrameView;

    open spec fn view(&self) -> VoiceFrameView {
        VoiceFrameView {
            op: self.op,
            ip: chars(self.ip),
            port: self.port,
            ssrc: self.ssrc,
            secret_key: match self.secret_key {
                Some(items) => Some(items@),
                None => None,
            },
            heartbeat_interval: self.heartbeat_interval,
        }
    }
}

/// The numbers among the items of an array.
pub open spec fn numbers(items: Seq<Json>) -> Seq<Option<u64>> {
    items.map_values(|item: Json| item.as_u64())
}

/// The frame in a JSON document.
pub open spec fn voice_frame(document: Json) -> VoiceFrameView {
    let data = document.field("d"@);
    VoiceFrameView {
        op: document.field("op"@).as_u64(),
        ip: data.field("ip"@).as_text(),
        port: data.field("port"@).as_u64(),
        ssrc: data.field("ssrc"@).as_u64(),
        secret_key: match data.field("secret_key"@).as_items() {
            Some(items) => Some(numbers(items)),
            None => None,
        },
        heartbeat_interval: data.field("heartbeat_interval"@).as_u64(),
    }
}

impl VoiceFrame {
    /// Reads a frame from a text; gives nothing where the text is no JSON.
    pub fn parse(text: &str) -> (r: Option<VoiceFrame>)
        requires
            text@.len() <= LONGEST_TEXT,
        ensures
            match r {
                Some(frame) => json_parsed(text@) is Some && frame@ == voice_frame(
                    json_parsed(text@).unwrap(),
                ),
                None => json_parsed(text@) is None,
            },
    {
        match parse_json(text) {
            Err(_) => None,
            Ok(document) => {
                let data = json_field(&document, "d");
                let secret_key = match json_as_array(json_field(data, "secret_key")) {
                    Some(items) => Some(VoiceFrame::collect(items)),
                    None => None,
                };
                Some(
                    VoiceFrame {
                        op: number_field(&document, "op"),
                        ip: text_field(data, "ip"),
                        port: number_field(data, "port"),
                        ssrc: number_field(data, "ssrc"),
                        secret_key,
                        heartbeat_interval: number_field(data, "heartbeat_interval"),
                    },
                )
            },
        }
    }

    /// The numbers among the items of an array.
    fn collect(items: &Vec<Value>) -> (r: Vec<Option<u64>>)
        ensures
            r@ == numbers(items@.map_values(|item: Value| json_contents(item))),
    {
        let mut result: Vec<Option<u64>> = Vec::new();
        let mut i: usize = 0;
        while i < items.len()
            invariant
                i <= items@.len(),
                result@.len() == i,
                forall|j: int| 0 <= j < i ==> result@[j] == json_contents(items@[j]).as_u64(),
            decreases items@.len() - i,
        {
            result.push(json_as_u64(&items[i]));
            i += 1;
        }
        assert(result@ =~= numbers(items@.map_values(|item: Value| json_contents(item))));
        result
    }
}

/// The key that a list of numbers stands for: a byte for each, of a larger
/// number the low byte, filled up with zeros. A list that is too long or holds
/// something else than numbers is no key.
pub open spec fn key_of(items: Seq<Option<u64>>) -> Option<Seq<u8>> {
    if items.len() <= 32 && forall|i: int| 0 <= i < items.len() ==> (#[trigger] items[i]) is Some {
        Some(
            Seq::new(
                32,
                |i: int|
                    if i < items.len() {
                        (items[i].unwrap() % 0x100) as u8
                    } else {
                        0u8
                    },
            ),
        )
    } else {
        None
    }
}

/// Reads a key from a list of numbers.
pub fn read_key(items: &Vec<Option<u64>>) -> (r: Option<[u8; 32]>)
    ensures
        match r {
            Some(key) => key_of(items@) == Some(key@),
            None => key_of(items@) is None,
        },
{
    if items.len() > 32 {
        return None;
    }
    let mut key: [u8; 32] = [0; 32];
    let mut i: usize = 0;
    while i < items.len()
        invariant
            i <= items@.len() <= 32,
            forall|j: int| 0 <= j < i ==> (#[trigger] items@[j]) is Some,
            forall|j: int| 0 <= j < i ==> #[trigger] key@[j] == items@[j].unwrap() % 0x100,
            forall|j: int| i <= j < 32 ==> #[trigger] key@[j] == 0,
        decreases items@.len() - i,
    {
        match items[i] {
            None => {
                return None;
            },
            Some(n) => {
                let b = n as u8;
                assert(b == n % 0x100) by (bit_vector)
                    requires
                        b == n as u8,
                ;
                key[i] = b;
            },
        }
        i += 1;
    }
    assert(key@ =~= key_of(items@).unwrap());
    Some(key)
}

/// What a voice message leads to.
#[derive(Debug, PartialEq, Eq)]
pub enum VoiceEvent {
    /// The voice server takes audio at this address, from the source with this
    /// number.
    Ready { ip: String, port: u16, ssrc: u32 },
    /// The key for audio packets has come.
    KeyReceived,
    /// From now on a heartbeat is due every so many milliseconds.
    StartHeartbeat(u64),
    /// There is nothing to do.
    Nothing,
    /// An operation that is not used.
    UnhandledOp(u64),
}

/// What a voice event says.
#[verifier::ext_equal]
pub enum VoiceEventView {
    Ready { ip: Seq<char>, port: u16, ssrc: u32 },
    KeyReceived,
    StartHeartbeat(u64),
    Nothing,
    UnhandledOp(u64),
}

impl View for VoiceEvent {
    type V = VoiceEventView;

    open spec fn view(&self) -> VoiceEventView {
        match self {
            VoiceEvent::Ready { ip, port, ssrc } => VoiceEventView::Ready {
                ip: ip@,
                port: *port,
                ssrc: *ssrc,
            },
            VoiceEvent::KeyReceived => VoiceEventView::KeyReceived,
            VoiceEvent::StartHeartbeat(interval) => VoiceEventView::StartHeartbeat(*interval),
            VoiceEvent::Nothing => VoiceEventView::Nothing,
            VoiceEvent::UnhandledOp(op) => VoiceEventView::UnhandledOp(*op),
        }
    }
}

/// What is due at a tick of the audio clock.
#[derive(Debug, PartialEq, Eq)]
pub enum SendStep {
    /// Nothing is sent.
    Idle,
    /// These samples are to be encoded; what comes out goes to `send_frame`.
    Encode(Vec<i16>),
    /// This packet is to be sent.
    Send(Vec<u8>),
}

/// What a step says.
#[verifier::ext_equal]
pub enum SendStepView {
    Idle,
    Encode(Seq<i16>),
    Send(Seq<u8>),
}

impl View for SendStep {
    type V = SendStepView;

    open spec fn view(&self) -> SendStepView {
        match self {
            SendStep::Idle => SendStepView::Idle,
            SendStep::Encode(samples) => SendStepView::Encode(samples@),
            SendStep::Send(packet) => SendStepView::Send(packet@),
        }
    }
}

/// What a datagram leads to.
#[derive(Debug, PartialEq, Eq)]
pub enum SocketEvent {
    /// Our address is known now; this message tells it to the voice server.
    SelectProtocol(String),
    /// Encoded audio to be played.
    Audio(Vec<u8>),
    /// A voice packet that came before the key.
    Ignored,
    /// A datagram of another type.
    Unknown,
}

/// What a socket event says.
#[verifier::ext_equal]
pub enum SocketEventView {
    SelectProtocol { address: Seq<char>, port: u16 },
    Audio(Seq<u8>),
    Ignored,
    Unknown,
}

/// Why encoded audio cannot be sent.
#[derive(Debug, Clone, Copy, PartialEq, Eq, Structural)]
pub enum FrameError {
    /// The key has not come yet.
    NoKey,
    /// There is no room for it in a packet.
    TooLong,
}

/// A step on the way into a call, after the WebSocket is connected.
#[derive(Debug, Clone, Copy, PartialEq, Eq, Structural)]
pub enum SetupStep {
    /// Waiting until the voice server has said where it takes audio.
    AwaitReady,
    BindSocket,
    ConnectSocket,
    /// Sending the request for our address.
    SendDiscovery,
    CreateEncoder,
    CreateDecoder,
}

/// The error with which a call ends where a step fails.
pub open spec fn setup_error(step: SetupStep) -> Error {
    match step {
        SetupStep::BindSocket | SetupStep::ConnectSocket | SetupStep::SendDiscovery => {
            Error::SocketError
        },
        SetupStep::AwaitReady | SetupStep::CreateEncoder | SetupStep::CreateDecoder => {
            Error::ApplicationError
        },
    }
}

impl SetupStep {
    /// The error with which a call ends where this step fails.
    pub fn error(self) -> (r: Error)
        ensures
            r == setup_error(self),
    {
        match self {
            SetupStep::BindSocket | SetupStep::ConnectSocket | SetupStep::SendDiscovery => {
                Error::SocketError
            },
            SetupStep::AwaitReady | SetupStep::CreateEncoder | SetupStep::CreateDecoder => {
                Error::ApplicationError
            },
        }
    }
}

/// What is remembered of a call.
pub struct Voice {
    awaiting_ready: bool,
    ssrc: u32,
    secret_key: Option<[u8; 32]>,
    sending_state: SendingState,
    sequence: u16,
    timestamp: u32,
    mono: [i16; 960],
    sent: Ghost<nat>,
}

/// The state of a call.
#[verifier::ext_equal]
pub struct VoiceView {
    /// The voice server has not said yet where it takes audio.
    pub awaiting_ready: bool,
    /// The number of our audio source.
    pub ssrc: u32,
    /// The key for audio packets.
    pub key: Option<Seq<u8>>,
    pub sending: SendingState,
    /// How many audio packets were built.
    pub sent: nat,
    /// The samples of the last tick.
    pub mono: Seq<i16>,
}

/// The number of the audio packet after `sent` others.
pub open spec fn sequence_at(sent: nat) -> u16 {
    (sent % 0x1_0000) as u16
}

/// The timestamp of the audio packet after `sent` others.
pub open spec fn timestamp_at(sent: nat) -> u32 {
    (sent * 960 % 0x1_0000_0000) as u32
}

/// The content of a packet of silence.
pub open spec fn silence() -> Seq<u8> {
    seq![0xF8u8, 0xFFu8, 0xFEu8]
}

/// The samples of one channel on two.
pub open spec fn stereo(mono: Seq<i16>) -> Seq<i16> {
    Seq::new(2 * mono.len(), |i: int| mono[i / 2])
}

/// The state after a packet of silence, or after a tick without one.
pub open spec fn next_state(state: SendingState) -> SendingState {
    match state {
        SendingState::SilenceFrame(i) => if i < LAST_SILENCE_FRAME {
            SendingState::SilenceFrame((i + 1) as u8)
        } else {
            SendingState::NotSending
        },
        _ => state,
    }
}

/// A call at its start.
pub open spec fn new_call() -> VoiceView {
    VoiceView {
        awaiting_ready: true,
        ssrc: 0,
        key: None,
        sending: SendingState::NotSending,
        sent: 0,
        mono: Seq::new(FRAME_SAMPLES as nat, |i: int| 0i16),
    }
}

/// The next audio packet of a call whose key is known.
pub open spec fn next_packet(voice: VoiceView, payload: Seq<u8>) -> Seq<u8> {
    voice_packet(
        voice.key.unwrap(),
        sequence_at(voice.sent),
        timestamp_at(voice.sent),
        voice.ssrc,
        payload,
    )
}

/// A call after a frame, and what the frame leads to.
pub open spec fn voice_step(voice: VoiceView, frame: VoiceFrameView) -> (
    VoiceView,
    Result<VoiceEventView, ReadError>,
) {
    match frame.op {
        None => (voice, Err(ReadError::Malformed)),
        Some(op) => if op == 2 {
            ready_step(voice, frame)
        } else if op == 4 {
            match frame.secret_key {
                None => (voice, Err(ReadError::Malformed)),
                Some(items) => match key_of(items) {
                    None => (voice, Err(ReadError::Malformed)),
                    Some(key) => (
                        VoiceView { key: Some(key), ..voice },
                        Ok(VoiceEventView::KeyReceived),
                    ),
                },
            }
        } else if op == 6 {
            (voice, Ok(VoiceEventView::Nothing))
        } else if op == 8 {
            match frame.heartbeat_interval {
                None => (voice, Err(ReadError::Malformed)),
                Some(interval) => (voice, Ok(VoiceEventView::StartHeartbeat(interval))),
            }
        } else {
            (voice, Ok(VoiceEventView::UnhandledOp(op)))
        },
    }
}

/// A call after the voice server said where it takes audio. Only the first
/// time counts.
pub open spec fn ready_step(voice: VoiceView, frame: VoiceFrameView) -> (
    VoiceView,
    Result<VoiceEventView, ReadError>,
) {
    if !voice.awaiting_ready {
        (voice, Ok(VoiceEventView::Nothing))
    } else {
        match (frame.ip, frame.port, frame.ssrc) {
            (Some(ip), Some(port), Some(ssrc)) => {
                let ssrc = (ssrc % 0x1_0000_0000) as u32;
                (
                    VoiceView { awaiting_ready: false, ssrc, ..voice },
                    Ok(VoiceEventView::Ready { ip, port: (port % 0x1_0000) as u16, ssrc }),
                )
            },
            _ => (VoiceView { awaiting_ready: false, ..voice }, Err(ReadError::Malformed)),
        }
    }
}

/// A call after a tick of the audio clock at which `recorded` waits to be
/// sent, and what is due.
pub open spec fn tick(voice: VoiceView, recorded: Seq<i16>) -> (VoiceView, SendStepView) {
    let voice = VoiceView { mono: refreshed(recorded, voice.mono), ..voice };
    match voice.sending {
        SendingState::NotSending => (voice, SendStepView::Idle),
        SendingState::Sending => (
            voice,
            if voice.key is Some {
                SendStepView::Encode(stereo(voice.mono))
            } else {
                SendStepView::Idle
            },
        ),
        SendingState::SilenceFrame(_) => {
            let after = VoiceView { sending: next_state(voice.sending), ..voice };
            if voice.key is Some {
                (
                    VoiceView { sent: voice.sent + 1, ..after },
                    SendStepView::Send(next_packet(voice, silence())),
                )
            } else {
                (after, SendStepView::Idle)
            }
        },
    }
}

/// What the datagram in the first `len` bytes of a buffer leads to.
pub open spec fn socket_step(voice: VoiceView, buffer: Seq<u8>, len: int) -> Result<
    SocketEventView,
    PacketError,
> {
    if buffer[1] == 0x02 {
        let address = discovered_address(buffer);
        if valid_utf8(address) {
            Ok(
                SocketEventView::SelectProtocol {
                    address: decode_utf8(address),
                    port: discovered_port(buffer) as u16,
                },
            )
        } else {
            Err(PacketError::NotText)
        }
    } else if buffer[1] == 0x78 {
        match voice.key {
            None => Ok(SocketEventView::Ignored),
            Some(key) => match voice_payload(key, buffer, len) {
                Ok(payload) => Ok(SocketEventView::Audio(payload)),
                Err(e) => Err(e),
            },
        }
    } else {
        Ok(SocketEventView::Unknown)
    }
}

/// The result of reading a message, by what it says.
pub open spec fn outcome(r: Result<VoiceEvent, ReadError>) -> Result<VoiceEventView, ReadError> {
    match r {
        Ok(event) => Ok(event@),
        Err(e) => Err(e),
    }
}

/// A call that takes in a text becomes `after`, with result `r`.
pub open spec fn voice_reads(
    before: VoiceView,
    text: Seq<char>,
    after: VoiceView,
    r: Result<VoiceEvent, ReadError>,
) -> bool {
    match json_parsed(text) {
        Some(document) => (after, outcome(r)) == voice_step(before, voice_frame(document)),
        None => after == before && outcome(r) == Err::<VoiceEventView, ReadError>(
            ReadError::Closed,
        ),
    }
}

/// The text joins a call.
pub open spec fn joins(call: CallInformation, text: Seq<char>) -> bool {
    conveys(
        text,
        voice_identify_message(call.server_id@, call.user_id@, call.session_id@, call.token@),
    )
}

/// A call that is given encoded audio becomes `after`, with result `r`.
pub open spec fn framed(
    before: VoiceView,
    payload: Seq<u8>,
    after: VoiceView,
    r: Result<Vec<u8>, FrameError>,
) -> bool {
    match r {
        Ok(packet) => {
            &&& before.key is Some
            &&& payload.len() <= MAX_PAYLOAD
            &&& packet@ == next_packet(before, payload)
            &&& packet@.len() == HEADER_SIZE + TAG_SIZE + payload.len()
            &&& carries(packet@, before.key.unwrap(), payload)
            &&& after == (VoiceView { sent: before.sent + 1, ..before })
        },
        Err(FrameError::NoKey) => before.key is None && after == before,
        Err(FrameError::TooLong) => {
            &&& before.key is Some
            &&& payload.len() > MAX_PAYLOAD
            &&& after == before
        },
    }
}

/// A call at a tick at which `recorded` waits to be sent becomes `after`,
/// `left` goes on waiting, and `step` is due.
pub open spec fn ticks(
    before: VoiceView,
    recorded: Seq<i16>,
    after: VoiceView,
    left: Seq<i16>,
    step: SendStep,
) -> bool {
    &&& (after, step@) == tick(before, recorded)
    &&& left == drained(recorded, FRAME_SAMPLES as nat)
}

/// The datagram in the first `len` bytes of a buffer has this result.
pub open spec fn receives(
    voice: VoiceView,
    buffer: Seq<u8>,
    len: int,
    r: Result<SocketEvent, PacketError>,
) -> bool {
    reports(r, socket_step(voice, buffer, len))
}

/// The text announces that we start or stop to speak.
pub open spec fn announces(voice: VoiceView, sending: bool, text: Seq<char>) -> bool {
    conveys(text, speaking_message(sending, voice.ssrc))
}

/// The packet asks for our address.
pub open spec fn discovers(voice: VoiceView, port: u16, packet: Seq<u8>) -> bool {
    packet == discovery_request(voice.ssrc, port)
}

/// A call after we have started or stopped to speak.
pub open spec fn switched(voice: VoiceView, sending: bool) -> VoiceView {
    VoiceView {
        sending: if sending {
            SendingState::Sending
        } else {
            SendingState::SilenceFrame(0)
        },
        ..voice
    }
}

/// An address and a port in one text.
pub open spec fn socket_address(ip: Seq<char>, port: u16) -> Seq<char> {
    ip + ":"@ + decimal(port as nat)
}

/// The result of reading a datagram says what `expected` says.
pub open spec fn reports(
    r: Result<SocketEvent, PacketError>,
    expected: Result<SocketEventView, PacketError>,
) -> bool {
    match (r, expected) {
        (
            Ok(SocketEvent::SelectProtocol(text)),
            Ok(SocketEventView::SelectProtocol { address, port }),
        ) => conveys(text@, select_protocol_message(address, port)),
        (Ok(SocketEvent::Audio(payload)), Ok(SocketEventView::Audio(content))) => payload@
            == content,
        (Ok(SocketEvent::Ignored), Ok(SocketEventView::Ignored)) => true,
        (Ok(SocketEvent::Unknown), Ok(SocketEventView::Unknown)) => true,
        (Err(e), Err(expected_error)) => e == expected_error,
        _ => false,
    }
}

/// Where the voice server takes audio: its address and port in one text.
pub fn udp_address(ip: &str, port: u16) -> (r: String)
    ensures
        r@ == socket_address(ip@, port),
{
    let mut address = ip.to_owned();
    address.append(":");
    append_decimal(&mut address, port);
    address
}

impl View for Voice {
    type V = VoiceView;

    closed spec fn view(&self) -> VoiceView {
        VoiceView {
            awaiting_ready: self.awaiting_ready,
            ssrc: self.ssrc,
            key: match self.secret_key {
                Some(key) => Some(key@),
                None => None,
            },
            sending: self.sending_state,
            sent: self.sent@,
            mono: self.mono@,
        }
    }
}

impl Voice {
    /// The packet counters agree with the number of packets.
    pub closed spec fn wf(&self) -> bool {
        &&& self.sequence == sequence_at(self.sent@)
        &&& self.timestamp == timestamp_at(self.sent@)
    }

    /// Starts a call. Gives the message that joins it.
    pub fn new(call_information: &CallInformation) -> (r: (Voice, String))
        ensures
            r.0.wf(),
            r.0@ == new_call(),
            joins(*call_information, r.1@),
    {
        let voice = Voice {
            awaiting_ready: true,
            ssrc: 0,
            secret_key: None,
            sending_state: SendingState::NotSending,
            sequence: 0,
            timestamp: 0,
            mono: [0; 960],
            sent: Ghost(0),
        };
        assert(voice@ =~= new_call());
        let text = voice_identify(
            call_information.server_id.as_str(),
            call_information.user_id.as_str(),
            call_information.session_id.as_str(),
            call_information.token.as_str(),
        );
        (voice, text)
    }

    /// Takes in a message from the voice server.
    pub fn read(&mut self, text: &str) -> (r: Result<VoiceEvent, ReadError>)
        requires
            old(self).wf(),
            text@.len() <= LONGEST_TEXT,
        ensures
            final(self).wf(),
            voice_reads(old(self)@, text@, final(self)@, r),
    {
        match VoiceFrame::parse(text) {
            Some(frame) => self.handle(frame),
            None => Err(ReadError::Closed),
        }
    }

    /// Takes in a frame from the voice server.
    pub fn handle(&mut self, frame: VoiceFrame) -> (r: Result<VoiceEvent, ReadError>)
        requires
            old(self).wf(),
        ensures
            final(self).wf(),
            (final(self)@, outcome(r)) == voice_step(old(self)@, frame@),
    {
        match frame.op {
            None => Err(ReadError::Malformed),
            Some(2) => {
                if !self.awaiting_ready {
                    return Ok(VoiceEvent::Nothing);
                }
                self.awaiting_ready = false;
                match (frame.ip, frame.port, frame.ssrc) {
                    (Some(ip), Some(port), Some(ssrc)) => {
                        let short_port = port as u16;
                        let short_ssrc = ssrc as u32;
                        assert(short_port == port % 0x1_0000) by (bit_vector)
                            requires
                                short_port == port as u16,
                        ;
                        assert(short_ssrc == ssrc % 0x1_0000_0000) by (bit_vector)
                            requires
                                short_ssrc == ssrc as u32,
                        ;
                        self.ssrc = short_ssrc;
                        Ok(VoiceEvent::Ready { ip, port: short_port, ssrc: short_ssrc })
                    },
                    _ => Err(ReadError::Malformed),
                }
            },
            Some(4) => match frame.secret_key {
                None => Err(ReadError::Malformed),
                Some(items) => match read_key(&items) {
                    None => Err(ReadError::Malformed),
                    Some(key) => {
                        self.secret_key = Some(key);
                        Ok(VoiceEvent::KeyReceived)
                    },
                },
            },
            Some(6) => Ok(VoiceEvent::Nothing),
            Some(8) => match frame.heartbeat_interval {
                None => Err(ReadError::Malformed),
                Some(interval) => Ok(VoiceEvent::StartHeartbeat(interval)),
            },
            Some(op) => Ok(VoiceEvent::UnhandledOp(op)),
        }
    }

    /// The heartbeat at a time in seconds.
    pub fn heartbeat(seconds: u64) -> (text: String)
        ensures
            conveys(text@, voice_heartbeat_message(seconds)),
    {
        voice_heartbeat(seconds)
    }

    /// Takes in the datagram in the first `len` bytes of the receive buffer.
    /// What is behind them in the buffer are bytes of earlier datagrams.
    pub fn read_socket(&self, buffer: &[u8; 1024], len: usize) -> (r: Result<
        SocketEvent,
        PacketError,
    >)
        requires
            len <= PACKET_BUFFER_SIZE,
        ensures
            receives(self@, buffer@, len as int, r),
            r matches Ok(SocketEvent::Audio(payload)) ==> HEADER_SIZE + TAG_SIZE + payload@.len()
                <= len,
    {
        match buffer[1] {
            0x02 => match read_discovery_answer(buffer) {
                Some((address, port)) => Ok(
                    SocketEvent::SelectProtocol(select_protocol(address.as_str(), port)),
                ),
                None => Err(PacketError::NotText),
            },
            0x78 => match &self.secret_key {
                None => Ok(SocketEvent::Ignored),
                Some(key) => match open_voice_packet(key, buffer, len) {
                    Ok(payload) => Ok(SocketEvent::Audio(payload)),
                    Err(e) => Err(e),
                },
            },
            _ => Ok(SocketEvent::Unknown),
        }
    }

    /// Does what is due at a tick of the audio clock, every
    /// `FRAME_MILLISECONDS`. The recorded samples are used up in any case.
    pub fn send_audio(&mut self, input: &mut AudioInput) -> (step: SendStep)
        requires
            old(self).wf(),
            old(input).wf(),
        ensures
            final(self).wf(),
            final(input).wf(),
            ticks(old(self)@, old(input)@, final(self)@, final(input)@, step),
            step matches SendStep::Send(packet) ==> carries(
                packet@,
                old(self)@.key.unwrap(),
                silence(),
            ),
            step matches SendStep::Encode(samples) ==> samples@.len() == 2 * FRAME_SAMPLES,
            step matches SendStep::Send(packet) ==> packet@.len() == HEADER_SIZE + TAG_SIZE
                + silence().len(),
    {
        input.pop(&mut self.mono);
        match self.sending_state {
            SendingState::NotSending => SendStep::Idle,
            SendingState::Sending => if self.secret_key.is_some() {
                SendStep::Encode(self.stereo_samples())
            } else {
                SendStep::Idle
            },
            SendingState::SilenceFrame(i) => {
                self.sending_state = if i < LAST_SILENCE_FRAME {
                    SendingState::SilenceFrame(i + 1)
                } else {
                    SendingState::NotSending
                };
                let content: [u8; 3] = [0xF8, 0xFF, 0xFE];
                assert(content@ =~= silence());
                match self.send_frame(&content) {
                    Ok(packet) => SendStep::Send(packet),
                    Err(_) => SendStep::Idle,
                }
            },
        }
    }

    /// The samples of the last tick on two channels.
    fn stereo_samples(&self) -> (r: Vec<i16>)
        ensures
            r@ == stereo(self@.mono),
    {
        let mut result: Vec<i16> = Vec::new();
        let mut i: usize = 0;
        while i < FRAME_SAMPLES
            invariant
                i <= FRAME_SAMPLES,
                result@.len() == 2 * i,
                forall|j: int| 0 <= j < 2 * i ==> result@[j] == self.mono@[j / 2],
            decreases FRAME_SAMPLES - i,
        {
            result.push(self.mono[i]);
            result.push(self.mono[i]);
            i += 1;
        }
        assert(result@ =~= stereo(self@.mono));
        result
    }

    /// Puts encoded audio into the next packet.
    pub fn send_frame(&mut self, payload: &[u8]) -> (r: Result<Vec<u8>, FrameError>)
        requires
            old(self).wf(),
        ensures
            final(self).wf(),
            framed(old(self)@, payload@, final(self)@, r),
    {
        let key = match self.secret_key {
            None => {
                return Err(FrameError::NoKey);
            },
            Some(key) => key,
        };
        if payload.len() > MAX_PAYLOAD {
            return Err(FrameError::TooLong);
        }
        let packet = build_voice_packet(&key, self.sequence, self.timestamp, self.ssrc, payload);
        self.advance();
        Ok(packet)
    }

    /// Counts a packet.
    fn advance(&mut self)
        requires
            old(self).wf(),
        ensures
            final(self).wf(),
            final(self)@ == (VoiceView { sent: old(self)@.sent + 1, ..old(self)@ }),
    {
        proof {
            lemma_counters_advance(self.sent@);
        }
        self.sequence = self.sequence.wrapping_add(1);
        self.timestamp = self.timestamp.wrapping_add(960);
        self.sent = Ghost(self.sent@ + 1);
    }

    /// The message that announces that we start or stop to speak.
    pub fn speaking(&self, sending: bool) -> (text: String)
        ensures
            announces(self@, sending, text@),
    {
        speaking(sending, self.ssrc)
    }

    /// Starts to speak, or stops.
    pub fn set_sending(&mut self, sending: bool)
        requires
            old(self).wf(),
        ensures
            final(self).wf(),
            final(self)@ == switched(old(self)@, sending),
    {
        self.sending_state = if sending {
            SendingState::Sending
        } else {
            SendingState::SilenceFrame(0)
        };
    }

    /// The packet that asks the voice server for our address, to be sent to the
    /// given port of it.
    pub fn discovery(&self, port: u16) -> (packet: [u8; 74])
        ensures
            discovers(self@, port, packet@),
    {
        build_discovery_request(self.ssrc, port)
    }
}

/// From one packet to the next the number grows by one and the timestamp by
/// the samples of a packet, both around the ends of their ranges.
pub proof fn lemma_counters_advance(sent: nat)
    ensures
        sequence_at(sent + 1) == sequence_at(sent).wrapping_add(1),
        timestamp_at(sent + 1) == timestamp_at(sent).wrapping_add(960),
{
    lemma_mod_step(sent as int, 1, 0x1_0000);
    lemma_mod_step((sent * 960) as int, 960, 0x1_0000_0000);
}

/// Adding less than the modulus carries over at most once.
proof fn lemma_mod_step(n: int, step: int, modulus: int)
    requires
        0 <= n,
        0 <= step < modulus,
    ensures
        (n + step) % modulus == if n % modulus + step < modulus {
            n % modulus + step
        } else {
            n % modulus + step - modulus
        },
{
    let q = n / modulus;
    let r = n % modulus;
    vstd::arithmetic::div_mod::lemma_fundamental_div_mod(n, modulus);
    vstd::arithmetic::div_mod::lemma_mod_bound(n, modulus);
    if r + step < modulus {
        assert(n + step == q * modulus + (r + step)) by (nonlinear_arith)
            requires
                n == modulus * q + r,
        ;
        vstd::arithmetic::div_mod::lemma_fundamental_div_mod_converse(
            n + step,
            modulus,
            q,
            r + step,
        );
    } else {
        assert(n + step == (q + 1) * modulus + (r + step - modulus)) by (nonlinear_arith)
            requires
                n == modulus * q + r,
        ;
        vstd::arithmetic::div_mod::lemma_fundamental_div_mod_converse(
            n + step,
            modulus,
            q + 1,
            r + step - modulus,
        );
    }
}

/// A call after as many ticks as there are items in `recorded`, each with the
/// samples that wait to be sent at it.
pub open spec fn after_ticks(voice: VoiceView, recorded: Seq<Seq<i16>>) -> VoiceView
    decreases recorded.len(),
{
    if recorded.len() == 0 {
        voice
    } else {
        tick(after_ticks(voice, recorded.drop_last()), recorded.last()).0
    }
}

/// Every sample is heard on both channels.
pub proof fn lemma_both_channels_alike(mono: Seq<i16>)
    ensures
        stereo(mono).len() == 2 * mono.len(),
        forall|i: int|
            0 <= i < mono.len() ==> #[trigger] mono[i] == stereo(mono)[2 * i] && mono[i] == stereo(
                mono,
            )[2 * i + 1],
{
}

/// When we stop to speak, six packets of silence follow, one at a tick, and
/// then nothing. Without a key the ticks pass in the same way, but nothing is
/// sent.
pub proof fn lemma_six_packets_of_silence(voice: VoiceView, recorded: Seq<Seq<i16>>)
    requires
        voice.sending == SendingState::SilenceFrame(0),
    ensures
        after_ticks(voice, recorded).sending == (if recorded.len() <= LAST_SILENCE_FRAME {
            SendingState::SilenceFrame(recorded.len() as u8)
        } else {
            SendingState::NotSending
        }),
        after_ticks(voice, recorded).sent == voice.sent + (if voice.key is None {
            0
        } else if recorded.len() <= LAST_SILENCE_FRAME {
            recorded.len()
        } else {
            LAST_SILENCE_FRAME as nat + 1
        }),
        after_ticks(voice, recorded).key == voice.key,
        after_ticks(voice, recorded).ssrc == voice.ssrc,
        recorded.len() > 0 ==> ({
            let before = after_ticks(voice, recorded.drop_last());
            tick(before, recorded.last()).1 == if voice.key is Some && recorded.len()
                <= LAST_SILENCE_FRAME + 1 {
                SendStepView::Send(next_packet(before, silence()))
            } else {
                SendStepView::Idle
            }
        }),
    decreases recorded.len(),
{
    if recorded.len() > 0 {
        lemma_six_packets_of_silence(voice, recorded.drop_last());
    }
}

/// While we do not speak nothing is sent.
pub proof fn lemma_quiet_unless_sending(voice: VoiceView, recorded: Seq<i16>)
    requires
        voice.sending == SendingState::NotSending || voice.key is None,
    ensures
        tick(voice, recorded).1 == SendStepView::Idle,
        tick(voice, recorded).0.sent == voice.sent,
{
}

/// While we speak, a tick changes nothing but the samples.
pub proof fn lemma_speaking_goes_on(voice: VoiceView, recorded: Seq<i16>)
    requires
        voice.sending == SendingState::Sending,
    ensures
        tick(voice, recorded).0 == (VoiceView { mono: refreshed(recorded, voice.mono), ..voice }),
{
}

/// Among 67108864 packets of a call in a row no two are sealed under the same
/// nonce.
pub proof fn lemma_nonces_do_not_repeat(
    earlier: VoiceView,
    later: VoiceView,
    first: Seq<u8>,
    second: Seq<u8>,
)
    requires
        earlier.key is Some,
        later.key is Some,
        earlier.ssrc == later.ssrc,
        earlier.sent < later.sent,
        later.sent - earlier.sent < 0x400_0000,
    ensures
        nonce(next_packet(earlier, first)) != nonce(next_packet(later, second)),
{
    let i = earlier.sent;
    let j = later.sent;
    let a = header(sequence_at(i), timestamp_at(i), earlier.ssrc);
    let b = header(sequence_at(j), timestamp_at(j), later.ssrc);
    assert(nonce(next_packet(earlier, first)) =~= nonce(a));
    assert(nonce(next_packet(later, second)) =~= nonce(b));
    if nonce(a) == nonce(b) {
        lemma_nonce_tells_packets_apart(
            earlier.ssrc,
            (sequence_at(i), timestamp_at(i)),
            (sequence_at(j), timestamp_at(j)),
        );
        lemma_timestamps_differ(i, j);
    }
}

/// The timestamp does not come back for 67108864 packets.
proof fn lemma_timestamps_differ(i: nat, j: nat)
    requires
        i < j,
        j - i < 0x400_0000,
    ensures
        timestamp_at(i) != timestamp_at(j),
{
    if timestamp_at(i) == timestamp_at(j) {
        let d: int = j - i;
        // 960 * d is a multiple of 2^32, so 15 * d is one of 2^26.
        let k: int = j * 960 / 0x1_0000_0000 - i * 960 / 0x1_0000_0000;
        vstd::arithmetic::div_mod::lemma_fundamental_div_mod((i * 960) as int, 0x1_0000_0000);
        vstd::arithmetic::div_mod::lemma_fundamental_div_mod((j * 960) as int, 0x1_0000_0000);
        assert(960 * d == 0x1_0000_0000 * k);
        assert(15 * d == 0x400_0000 * k);
        // 15 has the inverse 49213167 modulo 2^26, so d is one, too.
        assert(15 * 49213167 == 11 * 0x400_0000 + 1);
        assert(d == 0x400_0000 * (49213167 * k - 11 * d));
    }
}

/// What one side of a call sends is what the other side plays, whatever was in
/// the receive buffer before.
pub proof fn lemma_sent_audio_is_played(
    sender: VoiceView,
    receiver: VoiceView,
    payload: Seq<u8>,
    buffer: Seq<u8>,
)
    requires
        sender.key is Some,
        receiver.key == sender.key,
        carries(next_packet(sender, payload), sender.key.unwrap(), payload),
        next_packet(sender, payload).is_prefix_of(buffer),
    ensures
        socket_step(receiver, buffer, next_packet(sender, payload).len() as int) == Ok::<
            SocketEventView,
            PacketError,
        >(SocketEventView::Audio(payload)),
{
    let packet = next_packet(sender, payload);
    assert(packet[1] == 0x78);
    assert(buffer.subrange(0, packet.len() as int)[1] == buffer[1]);
}

/// Messages of the voice server do not touch the audio that is being sent.
pub proof fn lemma_messages_leave_audio_alone(voice: VoiceView, frame: VoiceFrameView)
    ensures
        voice_step(voice, frame).0.sending == voice.sending,
        voice_step(voice, frame).0.sent == voice.sent,
        voice_step(voice, frame).0.mono == voice.mono,
        frame.op != Some(4u64) ==> voice_step(voice, frame).0.key == voice.key,
{
}

/// The voice server tells only once where it takes audio and what our number
/// is: afterwards neither is heard again, and the number stays.
pub proof fn lemma_ready_at_most_once(voice: VoiceView, frame: VoiceFrameView)
    ensures
        voice_step(voice, frame).1 matches Ok(VoiceEventView::Ready { .. }) ==> {
            &&& voice.awaiting_ready
            &&& !voice_step(voice, frame).0.awaiting_ready
        },
        !voice.awaiting_ready ==> {
            &&& !voice_step(voice, frame).0.awaiting_ready
            &&& voice_step(voice, frame).0.ssrc == voice.ssrc
        },
{
}

/// A call after a row of frames.
pub open spec fn after_frames(voice: VoiceView, frames: Seq<VoiceFrameView>) -> VoiceView
    decreases frames.len(),
{
    if frames.len() == 0 {
        voice
    } else {
        voice_step(after_frames(voice, frames.drop_last()), frames.last()).0
    }
}

/// Once the voice server has said where it takes audio, no row of frames moves
/// the audio elsewhere, stops it or changes its numbering.
pub proof fn lemma_source_stays(voice: VoiceView, frames: Seq<VoiceFrameView>)
    requires
        !voice.awaiting_ready,
    ensures
        !after_frames(voice, frames).awaiting_ready,
        after_frames(voice, frames).ssrc == voice.ssrc,
        after_frames(voice, frames).sending == voice.sending,
        after_frames(voice, frames).sent == voice.sent,
        voice.key is Some ==> after_frames(voice, frames).key is Some,
    decreases frames.len(),
{
    if frames.len() > 0 {
        lemma_source_stays(voice, frames.drop_last());
    }
}

/// A key that is listed byte by byte is taken as it is.
pub proof fn lemma_key_is_taken_as_listed(key: Seq<u8>)
    requires
        key.len() == 32,
    ensures
        key_of(Seq::new(32, |i: int| Some(key[i] as u64))) == Some(key),
{
    assert(key_of(Seq::new(32, |i: int| Some(key[i] as u64))).unwrap() =~= key);
}

} // verus!
