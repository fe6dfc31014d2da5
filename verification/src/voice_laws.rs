//! What comes of the texts and datagrams that the voice server sends, of the
//! ticks of the audio clock and of the audio that is sent, told from the bytes,
//! samples and documents in them.

use crate::audio_io::SAMPLE_RATE;
use crate::error::ReadError;
use crate::gateway::CallInformation;
use crate::gateway_laws::{is_number_of, is_text_of};
use crate::json::{json_parsed, Json};
use crate::payload::{
    lemma_join_is_understood, lemma_protocol_is_understood, lemma_speaking_is_understood,
};
use crate::rtp::{
    header, lemma_discovery_answer_read_back, lemma_discovery_request_is_understood,
    lemma_header_is_understood, lemma_packet_is_opened, nonce, number_at, zeros, PacketError,
};
use crate::secretbox::{opened, sealed};
use crate::text::{decimal_value, lemma_decimal_read_back, lemma_no_leading_zero};
use crate::voice::{
    after_ticks, announces, discovers, framed, joins, lemma_six_packets_of_silence, new_call,
    next_packet, receives, sequence_at, silence, socket_address, switched, ticks, timestamp_at,
    voice_frame, voice_reads, FrameError, SendStep, SendingState, SocketEvent, VoiceEvent,
    VoiceFrame, VoiceView, FRAME_MILLISECONDS, FRAME_SAMPLES,
};
use vstd::prelude::*;
use vstd::utf8::{decode_utf8, encode_utf8, valid_utf8};

verus! {

/// A new call waits to hear where its audio goes, has no key, is quiet and has
/// sent nothing.
pub proof fn lemma_new_call_waits()
    ensures
        new_call().awaiting_ready,
        new_call().key is None,
        new_call().sending == SendingState::NotSending,
        new_call().sent == 0,
        new_call().mono.len() == 960,
        forall|i: int| 0 <= i < 960 ==> new_call().mono[i] == 0,
{
}

/// The text that joins a call names what the description of the call names.
pub proof fn lemma_join_names_the_call(call: CallInformation, text: Seq<char>)
    requires
        joins(call, text),
    ensures
        ({
            let sent = json_parsed(text).unwrap();
            let data = sent.field("d"@);
            &&& json_parsed(text) is Some
            &&& sent.holds("op"@, Json::Unsigned(0))
            &&& data.holds("server_id"@, Json::Text(call.server_id@))
            &&& data.holds("user_id"@, Json::Text(call.user_id@))
            &&& data.holds("session_id"@, Json::Text(call.session_id@))
            &&& data.holds("token"@, Json::Text(call.token@))
        }),
{
    lemma_join_is_understood(
        text,
        call.server_id@,
        call.user_id@,
        call.session_id@,
        call.token@,
    );
}

/// A frame holds, each in its place, what the document holds under the names of
/// the voice server's protocol.
pub proof fn lemma_frame_holds_the_document(frame: VoiceFrame, document: Json)
    requires
        frame@ == voice_frame(document),
    ensures
        is_number_of(frame.op, document.field("op"@)),
        is_text_of(frame.ip, document.field("d"@).field("ip"@)),
        is_number_of(frame.port, document.field("d"@).field("port"@)),
        is_number_of(frame.ssrc, document.field("d"@).field("ssrc"@)),
        is_number_of(
            frame.heartbeat_interval,
            document.field("d"@).field("heartbeat_interval"@),
        ),
        match document.field("d"@).field("secret_key"@) {
            Json::Array(items) => {
                &&& frame.secret_key matches Some(listed)
                &&& listed@.len() == items.len()
                &&& forall|i: int|
                    0 <= i < items.len() ==> is_number_of(listed@[i], #[trigger] items[i])
            },
            _ => frame.secret_key is None,
        },
{
}

/// The first time that the voice server says where it takes audio, exactly this
/// address, this port and this source are heard, and the source is kept. Of
/// numbers that are too large the low bits are.
pub proof fn lemma_ready_is_heard(
    before: VoiceView,
    text: Seq<char>,
    document: Json,
    address: Seq<char>,
    n: u64,
    source: u64,
    after: VoiceView,
    r: Result<VoiceEvent, ReadError>,
)
    requires
        voice_reads(before, text, after, r),
        json_parsed(text) == Some(document),
        before.awaiting_ready,
        document.holds("op"@, Json::Unsigned(2)),
        document.field("d"@).holds("ip"@, Json::Text(address)),
        document.field("d"@).holds("port"@, Json::Unsigned(n)),
        document.field("d"@).holds("ssrc"@, Json::Unsigned(source)),
    ensures
        ({
            &&& r matches Ok(VoiceEvent::Ready { ip, port, ssrc })
            &&& ip@ == address
            &&& (n - port) % 0x1_0000 == 0
            &&& n <= 65535 ==> port == n
            &&& (source - ssrc) % 0x1_0000_0000 == 0
            &&& source <= 4294967295 ==> ssrc == source
            &&& after == (VoiceView { awaiting_ready: false, ssrc, ..before })
        }),
{
}

/// A second time is not listened to, and a first time that lacks something is
/// malformed.
pub proof fn lemma_ready_is_heard_once(
    before: VoiceView,
    text: Seq<char>,
    document: Json,
    after: VoiceView,
    r: Result<VoiceEvent, ReadError>,
)
    requires
        voice_reads(before, text, after, r),
        json_parsed(text) == Some(document),
        document.holds("op"@, Json::Unsigned(2)),
    ensures
        !before.awaiting_ready ==> (r matches Ok(VoiceEvent::Nothing)) && after == before,
        before.awaiting_ready && (!(document.field("d"@).field("ip"@) is Text) || !(document.field(
            "d"@,
        ).field("port"@) is Unsigned) || !(document.field("d"@).field("ssrc"@) is Unsigned)) ==> (
        r matches Err(ReadError::Malformed)) && after == (VoiceView {
            awaiting_ready: false,
            ..before
        }),
{
}

/// In every state a key that is listed as up to 32 numbers is taken: each byte
/// is the low byte of its number, and bytes that are not listed are zero.
pub proof fn lemma_key_is_taken(
    before: VoiceView,
    text: Seq<char>,
    document: Json,
    items: Seq<Json>,
    after: VoiceView,
    r: Result<VoiceEvent, ReadError>,
)
    requires
        voice_reads(before, text, after, r),
        json_parsed(text) == Some(document),
        document.holds("op"@, Json::Unsigned(4)),
        document.field("d"@).holds("secret_key"@, Json::Array(items)),
        items.len() <= 32,
        forall|i: int| 0 <= i < items.len() ==> (#[trigger] items[i]) is Unsigned,
    ensures
        r matches Ok(VoiceEvent::KeyReceived),
        ({
            &&& after.key matches Some(key)
            &&& key.len() == 32
            &&& forall|i: int|
                0 <= i < items.len() ==> (#[trigger] items[i]->Unsigned_0 - key[i]) % 0x100 == 0
            &&& forall|i: int|
                0 <= i < items.len() && (#[trigger] items[i])->Unsigned_0 < 256 ==> key[i]
                    == items[i]->Unsigned_0
            &&& forall|i: int| items.len() <= i < 32 ==> key[i] == 0
        }),
        after == (VoiceView { key: after.key, ..before }),
{
    let frame = voice_frame(document);
    let listed = frame.secret_key.unwrap();
    assert(listed.len() == items.len());
    assert forall|i: int| 0 <= i < listed.len() implies (#[trigger] listed[i]) == Some(
        items[i]->Unsigned_0,
    ) by {
        assert(items[i] is Unsigned);
    }
    let key = after.key.unwrap();
    assert forall|i: int| 0 <= i < items.len() implies (#[trigger] items[i])->Unsigned_0 < 256
        ==> key[i] == items[i]->Unsigned_0 by {
        assert(listed[i] == Some(items[i]->Unsigned_0));
    }
    assert forall|i: int| 0 <= i < items.len() implies (#[trigger] items[i]->Unsigned_0 - key[i])
        % 0x100 == 0 by {
        assert(listed[i] == Some(items[i]->Unsigned_0));
    }
}

/// A key that is no list, is too long or holds something else than numbers is
/// malformed, and the old key stays.
pub proof fn lemma_bad_key_is_refused(
    before: VoiceView,
    text: Seq<char>,
    document: Json,
    after: VoiceView,
    r: Result<VoiceEvent, ReadError>,
)
    requires
        voice_reads(before, text, after, r),
        json_parsed(text) == Some(document),
        document.holds("op"@, Json::Unsigned(4)),
        document.field("d"@).field("secret_key"@) matches Json::Array(items) ==> items.len() > 32
            || exists|i: int| 0 <= i < items.len() && !((#[trigger] items[i]) is Unsigned),
    ensures
        r matches Err(ReadError::Malformed),
        after == before,
{
    let frame = voice_frame(document);
    if let Json::Array(items) = document.field("d"@).field("secret_key"@) {
        let listed = frame.secret_key.unwrap();
        assert(listed.len() == items.len());
        if items.len() <= 32 {
            let i = choose|i: int| 0 <= i < items.len() && !((#[trigger] items[i]) is Unsigned);
            assert(listed[i] is None);
        }
    }
}

/// In every state a greeting starts the heartbeat at the interval that it
/// names, an acknowledged heartbeat leads to nothing, and an operation that is
/// not used is reported by its number. None of them changes the call.
pub proof fn lemma_other_operations_are_named(
    before: VoiceView,
    text: Seq<char>,
    document: Json,
    op: u64,
    after: VoiceView,
    r: Result<VoiceEvent, ReadError>,
)
    requires
        voice_reads(before, text, after, r),
        json_parsed(text) == Some(document),
        document.holds("op"@, Json::Unsigned(op)),
        op != 2,
        op != 4,
    ensures
        op == 8 ==> (document.field("d"@).field("heartbeat_interval"@) matches Json::Unsigned(n)
            ==> (r matches Ok(VoiceEvent::StartHeartbeat(interval)) && interval == n)),
        op == 8 && !(document.field("d"@).field("heartbeat_interval"@) is Unsigned) ==> (
        r matches Err(ReadError::Malformed)),
        op == 6 ==> (r matches Ok(VoiceEvent::Nothing)),
        op != 6 && op != 8 ==> (r matches Ok(VoiceEvent::UnhandledOp(named)) && named == op),
        after == before,
{
}

/// A text that is no document closes the conversation, and a document without
/// an operation is malformed. Neither changes the call.
pub proof fn lemma_unusable_texts_are_refused(
    before: VoiceView,
    text: Seq<char>,
    after: VoiceView,
    r: Result<VoiceEvent, ReadError>,
)
    requires
        voice_reads(before, text, after, r),
    ensures
        (r matches Err(ReadError::Closed)) <==> json_parsed(text) is None,
        json_parsed(text) is None ==> after == before,
        json_parsed(text) matches Some(document) ==> !(document.field("op"@) is Unsigned) ==> (
        r matches Err(ReadError::Malformed)) && after == before,
{
}

/// The source that the voice server gave us is the one that the discovery
/// request, the announcement of speech and every audio packet name. The request
/// also names the port, and the announcement whether we speak.
pub proof fn lemma_our_source_is_named(
    voice: VoiceView,
    port: u16,
    request: Seq<u8>,
    sending: bool,
    text: Seq<char>,
    payload: Seq<u8>,
)
    requires
        discovers(voice, port, request),
        announces(voice, sending, text),
    ensures
        request.len() == 74,
        request[0] == 0 && request[1] == 1 && request[2] == 0 && request[3] == 70,
        number_at(request, 4) == voice.ssrc,
        request[72] * 0x100 + request[73] == port,
        ({
            let sent = json_parsed(text).unwrap();
            &&& json_parsed(text) is Some
            &&& sent.holds("op"@, Json::Unsigned(5))
            &&& sent.field("d"@).holds("ssrc"@, Json::Unsigned(voice.ssrc as u64))
            &&& sent.field("d"@).holds(
                "speaking"@,
                if sending {
                    Json::Unsigned(1)
                } else {
                    Json::Unsigned(0)
                },
            )
        }),
        number_at(next_packet(voice, payload), 8) == voice.ssrc,
{
    lemma_discovery_request_is_understood(voice.ssrc, port);
    lemma_speaking_is_understood(text, sending, voice.ssrc);
    lemma_next_packet_is_understood(voice, payload);
}

/// Twelve bytes of zero.
pub open spec fn twelve_zeros() -> Seq<u8> {
    seq![0u8, 0, 0, 0, 0, 0, 0, 0, 0, 0, 0, 0]
}

/// The bytes are an audio packet that is the `sent`-th, counted from zero, of
/// its source: a header with the number, the timestamp at 960 samples a packet
/// and the source, and the content sealed under the key and this header.
pub open spec fn is_packet(
    packet: Seq<u8>,
    key: Seq<u8>,
    sent: nat,
    ssrc: u32,
    content: Seq<u8>,
) -> bool {
    &&& packet.len() >= 12
    &&& packet[0] == 0x80
    &&& packet[1] == 0x78
    &&& packet[2] * 0x100 + packet[3] == sent % 0x1_0000
    &&& number_at(packet, 4) == sent * 960 % 0x1_0000_0000
    &&& number_at(packet, 8) == ssrc
    &&& packet.skip(12) == sealed(key, packet.take(12) + twelve_zeros(), content)
}

/// The next packet of a call is numbered by how many were sent.
pub proof fn lemma_next_packet_is_understood(voice: VoiceView, payload: Seq<u8>)
    ensures
        is_packet(
            next_packet(voice, payload),
            voice.key.unwrap(),
            voice.sent,
            voice.ssrc,
            payload,
        ),
{
    let head = header(sequence_at(voice.sent), timestamp_at(voice.sent), voice.ssrc);
    let packet = next_packet(voice, payload);
    lemma_header_is_understood(sequence_at(voice.sent), timestamp_at(voice.sent), voice.ssrc);
    assert(packet.take(12) =~= head);
    assert(nonce(head) =~= head + twelve_zeros());
    assert(packet.skip(12) =~= sealed(voice.key.unwrap(), nonce(head), payload));
    assert forall|i: int| 0 <= i < 12 implies packet[i] == head[i] by {}
}

/// With a key, up to 996 bytes of encoded audio become the next packet, however
/// many were sent before: the packet can be opened to exactly these bytes, and
/// is counted. Nothing else changes.
pub proof fn lemma_audio_becomes_a_packet(
    before: VoiceView,
    key: Seq<u8>,
    payload: Seq<u8>,
    after: VoiceView,
    r: Result<Vec<u8>, FrameError>,
)
    requires
        framed(before, payload, after, r),
        before.key == Some(key),
        payload.len() <= 996,
    ensures
        ({
            &&& r matches Ok(packet)
            &&& is_packet(packet@, key, before.sent, before.ssrc, payload)
            &&& packet@.len() == 28 + payload.len()
            &&& opened(key, packet@.take(12) + twelve_zeros(), packet@.skip(12)) == Some(payload)
        }),
        after == (VoiceView { sent: before.sent + 1, ..before }),
{
    let packet = r->Ok_0@;
    lemma_next_packet_is_understood(before, payload);
    assert(packet.is_prefix_of(packet)) by {
        assert(packet.subrange(0, packet.len() as int) =~= packet);
    }
    lemma_packet_is_opened(key, packet, packet.len() as int);
    assert(packet.subrange(12, packet.len() as int) =~= packet.skip(12));
    assert(Seq::new(12, |i: int| 0u8) =~= twelve_zeros());
    assert(0x80u8 & 0x10 == 0) by (bit_vector);
}

/// Without a key nothing is sent, and what does not fit is refused. Neither
/// changes the call.
pub proof fn lemma_unsendable_audio_is_refused(
    before: VoiceView,
    payload: Seq<u8>,
    after: VoiceView,
    r: Result<Vec<u8>, FrameError>,
)
    requires
        framed(before, payload, after, r),
        before.key is None || payload.len() > 996,
    ensures
        before.key is None ==> (r matches Err(FrameError::NoKey)),
        before.key is Some ==> (r matches Err(FrameError::TooLong)),
        after == before,
{
}

/// The sample that is sent from position `i` of a tick: the recorded one, or
/// the one of an earlier tick where too few were recorded.
pub open spec fn sample_at(recorded: Seq<i16>, earlier: Seq<i16>, i: int) -> i16 {
    if i < recorded.len() {
        recorded[i]
    } else {
        earlier[i]
    }
}

/// While we speak and have a key, every tick hands its samples to the encoder,
/// each on both channels, however many packets were sent before; and we go on
/// speaking.
pub proof fn lemma_speech_is_encoded_at_every_tick(
    before: VoiceView,
    recorded: Seq<i16>,
    after: VoiceView,
    left: Seq<i16>,
    step: SendStep,
)
    requires
        ticks(before, recorded, after, left, step),
        before.sending == SendingState::Sending,
        before.key is Some,
        before.mono.len() == 960,
    ensures
        ({
            &&& step matches SendStep::Encode(samples)
            &&& samples@.len() == 1920
            &&& forall|i: int|
                0 <= i < 960 ==> samples@[2 * i] == #[trigger] sample_at(recorded, before.mono, i)
                    && samples@[2 * i + 1] == sample_at(recorded, before.mono, i)
        }),
        after == (VoiceView { mono: after.mono, ..before }),
{
    let samples = step->Encode_0@;
    assert forall|i: int| 0 <= i < 960 implies samples[2 * i] == #[trigger] sample_at(
        recorded,
        before.mono,
        i,
    ) && samples[2 * i + 1] == sample_at(recorded, before.mono, i) by {
        assert((2 * i) / 2 == i);
        assert((2 * i + 1) / 2 == i);
    }
}

/// Whatever we do, a tick uses up the first 960 recorded samples, or all where
/// there are fewer, and remembers them; it never changes the source or the key.
pub proof fn lemma_tick_uses_up_samples(
    before: VoiceView,
    recorded: Seq<i16>,
    after: VoiceView,
    left: Seq<i16>,
    step: SendStep,
)
    requires
        ticks(before, recorded, after, left, step),
        before.mono.len() == 960,
    ensures
        after.mono.len() == 960,
        forall|i: int|
            0 <= i < 960 ==> #[trigger] after.mono[i] == sample_at(recorded, before.mono, i),
        recorded.len() >= 960 ==> recorded.take(960) + left == recorded,
        recorded.len() < 960 ==> left.len() == 0,
        after.ssrc == before.ssrc,
        after.key == before.key,
        after.awaiting_ready == before.awaiting_ready,
{
    if recorded.len() >= 960 {
        assert(recorded.take(960) + left =~= recorded);
    }
}

/// While we are quiet, or have no key, a tick sends nothing and counts nothing.
pub proof fn lemma_quiet_ticks_send_nothing(
    before: VoiceView,
    recorded: Seq<i16>,
    after: VoiceView,
    left: Seq<i16>,
    step: SendStep,
)
    requires
        ticks(before, recorded, after, left, step),
        before.sending == SendingState::NotSending || before.key is None,
    ensures
        step matches SendStep::Idle,
        after.sent == before.sent,
        before.sending == SendingState::NotSending ==> after.sending == SendingState::NotSending,
        before.sending == SendingState::Sending ==> after.sending == SendingState::Sending,
{
}

/// A packet of silence that a tick sends is the next packet of the call, holds
/// the three bytes of an empty Opus frame, and is counted.
pub proof fn lemma_silence_is_sent(
    before: VoiceView,
    key: Seq<u8>,
    recorded: Seq<i16>,
    after: VoiceView,
    left: Seq<i16>,
    step: SendStep,
)
    requires
        ticks(before, recorded, after, left, step),
        before.sending is SilenceFrame,
        before.key == Some(key),
    ensures
        step matches SendStep::Send(packet) && is_packet(
            packet@,
            key,
            before.sent,
            before.ssrc,
            seq![0xF8u8, 0xFFu8, 0xFEu8],
        ),
        after.sent == before.sent + 1,
{
    lemma_next_packet_is_understood(before, silence());
    assert(silence() =~= seq![0xF8u8, 0xFFu8, 0xFEu8]);
    let quiet = VoiceView { mono: after.mono, ..before };
    assert(next_packet(quiet, silence()) == next_packet(before, silence()));
}

/// From whatever we did before, starting to speak makes us speak, and changes
/// nothing else.
pub proof fn lemma_speech_starts(before: VoiceView)
    ensures
        switched(before, true) == (VoiceView { sending: SendingState::Sending, ..before }),
{
}

/// From whatever we did before, when we stop to speak the next six ticks send a
/// packet of silence each, numbered in a row, and the ticks after them send
/// nothing, until we speak again.
pub proof fn lemma_speech_ends_in_silence(
    before: VoiceView,
    key: Seq<u8>,
    earlier: Seq<Seq<i16>>,
    recorded: Seq<i16>,
    after: VoiceView,
    left: Seq<i16>,
    step: SendStep,
)
    requires
        before.key == Some(key),
        ticks(after_ticks(switched(before, false), earlier), recorded, after, left, step),
    ensures
        earlier.len() < 6 ==> {
            &&& step matches SendStep::Send(packet)
            &&& is_packet(
                packet@,
                key,
                before.sent + earlier.len(),
                before.ssrc,
                seq![0xF8u8, 0xFFu8, 0xFEu8],
            )
        },
        earlier.len() < 6 ==> after.sent == before.sent + earlier.len() + 1,
        earlier.len() >= 6 ==> {
            &&& step matches SendStep::Idle
            &&& after.sent == before.sent + 6
            &&& after.sending == SendingState::NotSending
        },
        earlier.len() >= 5 ==> after.sending == SendingState::NotSending,
{
    let stopped = switched(before, false);
    lemma_six_packets_of_silence(stopped, earlier);
    let now = after_ticks(stopped, earlier);
    if earlier.len() < 6 {
        lemma_silence_is_sent(now, key, recorded, after, left, step);
    }
}

/// In every state of a call with a key, an audio packet whose part behind the
/// header opens under the key and the header is handed on to be played: without
/// its first eight bytes where the header announces an extension, and whole
/// otherwise.
pub proof fn lemma_received_speech_is_played(
    voice: VoiceView,
    key: Seq<u8>,
    buffer: Seq<u8>,
    len: int,
    content: Seq<u8>,
    r: Result<SocketEvent, PacketError>,
)
    requires
        receives(voice, buffer, len, r),
        voice.key == Some(key),
        12 <= len <= buffer.len(),
        buffer[1] == 0x78,
        opened(key, buffer.take(12) + twelve_zeros(), buffer.subrange(12, len)) == Some(content),
    ensures
        buffer[0] & 0x10 == 0 ==> (r matches Ok(SocketEvent::Audio(payload)) && payload@
            == content),
        buffer[0] & 0x10 != 0 && content.len() >= 8 ==> (r matches Ok(SocketEvent::Audio(payload))
            && content.take(8) + payload@ == content),
        buffer[0] & 0x10 != 0 && content.len() < 8 ==> (r matches Err(
            PacketError::MissingExtension,
        )),
{
    assert(Seq::new(12, |i: int| 0u8) =~= twelve_zeros());
    lemma_packet_is_opened(key, buffer, len);
    if content.len() >= 8 {
        assert(content.take(8) + content.subrange(8, content.len() as int) =~= content);
    }
}

/// An audio packet that ends in its header, or that does not open, is refused;
/// before the key has come audio packets are ignored; a datagram of another
/// type is unknown. Nothing of them is played.
pub proof fn lemma_unusable_datagrams_are_not_played(
    voice: VoiceView,
    buffer: Seq<u8>,
    len: int,
    r: Result<SocketEvent, PacketError>,
)
    requires
        receives(voice, buffer, len, r),
        0 <= len <= buffer.len(),
        12 <= buffer.len(),
    ensures
        buffer[1] == 0x78 && voice.key is None ==> (r matches Ok(SocketEvent::Ignored)),
        buffer[1] == 0x78 && len < 12 ==> (voice.key is Some ==> (r matches Err(
            PacketError::Truncated,
        ))),
        buffer[1] == 0x78 && len >= 12 ==> (voice.key matches Some(key) ==> (opened(
            key,
            buffer.take(12) + twelve_zeros(),
            buffer.subrange(12, len),
        ) is None ==> (r matches Err(PacketError::Forged)))),
        buffer[1] != 0x78 && buffer[1] != 0x02 ==> (r matches Ok(SocketEvent::Unknown)),
{
    assert(Seq::new(12, |i: int| 0u8) =~= twelve_zeros());
    if voice.key is Some {
        lemma_packet_is_opened(voice.key.unwrap(), buffer, len);
    }
}

/// In every state of a call, the answer to a discovery request leads to the
/// choice of protocol: it names the address that stands in the answer, filled
/// up with zeros, and the port behind it.
pub proof fn lemma_discovered_address_is_told(
    voice: VoiceView,
    buffer: Seq<u8>,
    len: int,
    address: Seq<char>,
    r: Result<SocketEvent, PacketError>,
)
    requires
        receives(voice, buffer, len, r),
        buffer.len() >= 74,
        buffer[1] == 0x02,
        encode_utf8(address).len() <= 64,
        forall|i: int|
            0 <= i < encode_utf8(address).len() ==> #[trigger] encode_utf8(address)[i] != 0
                && buffer[8 + i] == encode_utf8(address)[i],
        forall|i: int| 8 + encode_utf8(address).len() <= i < 72 ==> buffer[i] == 0,
    ensures
        ({
            &&& r matches Ok(SocketEvent::SelectProtocol(text))
            &&& json_parsed(text@) matches Some(sent)
            &&& sent.holds("op"@, Json::Unsigned(1))
            &&& sent.field("d"@).holds("protocol"@, Json::Text("udp"@))
            &&& sent.field("d"@).field("data"@).holds("address"@, Json::Text(address))
            &&& sent.field("d"@).field("data"@).holds(
                "port"@,
                Json::Unsigned((buffer[72] * 0x100 + buffer[73]) as u64),
            )
            &&& sent.field("d"@).field("data"@).holds("mode"@, Json::Text("xsalsa20_poly1305"@))
        }),
{
    let port = (buffer[72] * 0x100 + buffer[73]) as u16;
    let bytes = encode_utf8(address);
    assert(buffer.subrange(8, 72) =~= bytes + zeros((64 - bytes.len()) as nat)) by {
        assert forall|i: int| 0 <= i < 64 implies buffer.subrange(8, 72)[i] == (bytes + zeros(
            (64 - bytes.len()) as nat,
        ))[i] by {
            if i < bytes.len() {
                assert(bytes[i] == buffer[8 + i]);
            }
        }
    }
    assert(buffer.subrange(72, 74) =~= crate::bytes::be16(port));
    lemma_discovery_answer_read_back(buffer, address, port);
    let text = r->Ok_0->SelectProtocol_0@;
    lemma_protocol_is_understood(text, address, port);
}

/// The answer to a discovery request is refused exactly where what stands in
/// its address field, without zeros, is no text. Otherwise this text and the
/// port are told.
pub proof fn lemma_answer_without_text_is_refused(
    voice: VoiceView,
    buffer: Seq<u8>,
    len: int,
    r: Result<SocketEvent, PacketError>,
)
    requires
        receives(voice, buffer, len, r),
        buffer.len() >= 74,
        buffer[1] == 0x02,
    ensures
        (r matches Err(PacketError::NotText)) <==> !valid_utf8(
            buffer.subrange(8, 72).filter(|b: u8| b != 0),
        ),
        (r matches Ok(SocketEvent::SelectProtocol(_))) <==> valid_utf8(
            buffer.subrange(8, 72).filter(|b: u8| b != 0),
        ),
        r matches Ok(SocketEvent::SelectProtocol(text)) ==> {
            let endpoint = json_parsed(text@).unwrap().field("d"@).field("data"@);
            &&& endpoint.holds(
                "address"@,
                Json::Text(decode_utf8(buffer.subrange(8, 72).filter(|b: u8| b != 0))),
            )
            &&& endpoint.holds(
                "port"@,
                Json::Unsigned((buffer[72] * 0x100 + buffer[73]) as u64),
            )
        },
{
    if let Ok(SocketEvent::SelectProtocol(text)) = r {
        lemma_protocol_is_understood(
            text@,
            decode_utf8(buffer.subrange(8, 72).filter(|b: u8| b != 0)),
            (buffer[72] * 0x100 + buffer[73]) as u16,
        );
    }
}

/// An address and a port in one text can be taken apart again: the address
/// stands in front, a colon follows, and the rest is the port in decimal
/// notation.
pub proof fn lemma_socket_address_is_understood(ip: Seq<char>, port: u16)
    ensures
        ({
            let text = socket_address(ip, port);
            let rest = text.skip(ip.len() as int + 1);
            &&& text.len() > ip.len() + 1
            &&& text.take(ip.len() as int) == ip
            &&& text[ip.len() as int] == ':'
            &&& decimal_value(rest) == port
            &&& forall|i: int| 0 <= i < rest.len() ==> '0' <= #[trigger] rest[i] <= '9'
            &&& rest[0] == '0' ==> rest.len() == 1
        }),
{
    reveal_strlit(":");
    let text = socket_address(ip, port);
    lemma_decimal_read_back(port as nat);
    lemma_no_leading_zero(port as nat);
    assert(text.take(ip.len() as int) =~= ip);
    assert(text.skip(ip.len() as int + 1) =~= crate::text::decimal(port as nat));
}

/// The ticks keep time with the sound devices: a packet holds the samples that
/// are recorded from one tick to the next, which is 20 milliseconds.
pub proof fn lemma_clock_keeps_time()
    ensures
        FRAME_MILLISECONDS == 20,
        FRAME_SAMPLES * 1000 == SAMPLE_RATE * FRAME_MILLISECONDS,
        SAMPLE_RATE == 48000,
{
}

} // verus!
