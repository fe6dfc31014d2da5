//! The packets that travel over the UDP socket.

use crate::bytes::{
    be16, be32, from_be16, lemma_be16_read_back, lemma_be32_injective, read_be16, write_be16,
    write_be32,
};
use crate::secretbox::{opened, seal, sealed, unseal, TAG_SIZE};
use crate::text::text_of;
use vstd::prelude::*;
use vstd::slice::slice_subrange;
use vstd::utf8::{decode_utf8, encode_utf8, valid_utf8};

verus! {

/// The size of the buffers in which packets are built and received.
pub const PACKET_BUFFER_SIZE: usize = 1024;

/// The size of the header of a voice packet.
pub const HEADER_SIZE: usize = 12;

/// The longest payload for which there is room in the packet buffer, next to
/// the header and the authentication tag.
pub const MAX_PAYLOAD: usize = 996;

/// The size of the header extension that some voice packets carry.
pub const EXTENSION_SIZE: usize = 8;

/// The size of an address discovery packet.
pub const DISCOVERY_SIZE: usize = 74;

/// `n` bytes of zero.
pub open spec fn zeros(n: nat) -> Seq<u8> {
    Seq::new(n, |i: int| 0u8)
}

/// The header of a voice packet.
pub open spec fn header(sequence: u16, timestamp: u32, ssrc: u32) -> Seq<u8> {
    seq![0x80u8, 0x78u8] + be16(sequence) + be32(timestamp) + be32(ssrc)
}

/// The nonce under which the payload of a packet is sealed: the header, filled
/// up with zeros.
pub open spec fn nonce(packet: Seq<u8>) -> Seq<u8> {
    packet.take(HEADER_SIZE as int) + zeros(12)
}

/// A voice packet: the header, and the payload sealed under the key.
pub open spec fn voice_packet(
    key: Seq<u8>,
    sequence: u16,
    timestamp: u32,
    ssrc: u32,
    payload: Seq<u8>,
) -> Seq<u8> {
    let head = header(sequence, timestamp, ssrc);
    head + sealed(key, nonce(head), payload)
}

/// The packet that asks the voice server under which address it sees us.
pub open spec fn discovery_request(ssrc: u32, port: u16) -> Seq<u8> {
    be16(1) + be16(70) + be32(ssrc) + zeros(64) + be16(port)
}

/// The address in the answer to a discovery request: the bytes of its field
/// that are not zero.
pub open spec fn discovered_address(buffer: Seq<u8>) -> Seq<u8> {
    buffer.subrange(8, 72).filter(|b: u8| b != 0)
}

/// The port in the answer to a discovery request.
pub open spec fn discovered_port(buffer: Seq<u8>) -> int {
    from_be16(buffer[72], buffer[73])
}

/// Whether the first byte of a voice packet announces a header extension.
pub open spec fn has_extension(first: u8) -> bool {
    first & 0x10 > 0
}

/// What is left of the plain content of a packet when the extension that its
/// first byte announces is taken off; nothing where the content is too short.
pub open spec fn without_extension(first: u8, content: Seq<u8>) -> Option<Seq<u8>> {
    if !has_extension(first) {
        Some(content)
    } else if content.len() >= EXTENSION_SIZE {
        Some(content.skip(EXTENSION_SIZE as int))
    } else {
        None
    }
}

/// Why a datagram cannot be used.
#[derive(Debug, Clone, Copy, PartialEq, Eq, Structural)]
pub enum PacketError {
    /// The address in a discovery answer is no text.
    NotText,
    /// A voice packet ends within its header.
    Truncated,
    /// A voice packet is not authentic under the key.
    Forged,
    /// A voice packet announces an extension that it does not hold.
    MissingExtension,
}

/// The payload of the voice packet in the first `len` bytes of a buffer.
pub open spec fn voice_payload(key: Seq<u8>, buffer: Seq<u8>, len: int) -> Result<
    Seq<u8>,
    PacketError,
> {
    if len < HEADER_SIZE {
        Err(PacketError::Truncated)
    } else {
        match opened(key, nonce(buffer), buffer.subrange(HEADER_SIZE as int, len)) {
            None => Err(PacketError::Forged),
            Some(content) => match without_extension(buffer[0], content) {
                None => Err(PacketError::MissingExtension),
                Some(payload) => Ok(payload),
            },
        }
    }
}

/// Whoever receives `packet` into a buffer and has the key finds `payload` in
/// it.
pub open spec fn carries(packet: Seq<u8>, key: Seq<u8>, payload: Seq<u8>) -> bool {
    forall|buffer: Seq<u8>| #[trigger]
        packet.is_prefix_of(buffer) ==> voice_payload(key, buffer, packet.len() as int) == Ok::<
            Seq<u8>,
            PacketError,
        >(payload)
}

/// Builds the header of a voice packet.
pub fn build_header(sequence: u16, timestamp: u32, ssrc: u32) -> (r: [u8; 12])
    ensures
        r@ == header(sequence, timestamp, ssrc),
{
    let mut head: [u8; 12] = [0; 12];
    head[0] = 0x80;
    head[1] = 0x78;
    write_be16(&mut head, 2, sequence);
    write_be32(&mut head, 4, timestamp);
    write_be32(&mut head, 8, ssrc);
    assert(head@ =~= header(sequence, timestamp, ssrc));
    head
}

/// Builds the nonce for a packet.
pub fn build_nonce(packet: &[u8]) -> (r: [u8; 24])
    requires
        packet@.len() >= HEADER_SIZE,
    ensures
        r@ == nonce(packet@),
{
    let mut result: [u8; 24] = [0; 24];
    let mut i: usize = 0;
    while i < HEADER_SIZE
        invariant
            i <= HEADER_SIZE,
            packet@.len() >= HEADER_SIZE,
            result@ =~= packet@.take(i as int) + zeros((24 - i) as nat),
        decreases HEADER_SIZE - i,
    {
        result[i] = packet[i];
        i += 1;
    }
    assert(result@ =~= nonce(packet@));
    result
}

/// Puts a header and the sealed content behind it into one packet.
pub fn join_packet(head: &[u8; 12], content: &[u8]) -> (packet: Vec<u8>)
    ensures
        packet@ == head@ + content@,
{
    let mut packet: Vec<u8> = Vec::new();
    packet.extend_from_slice(head);
    packet.extend_from_slice(content);
    assert(packet@ =~= head@ + content@);
    packet
}

/// Builds a voice packet.
pub fn build_voice_packet(
    key: &[u8; 32],
    sequence: u16,
    timestamp: u32,
    ssrc: u32,
    payload: &[u8],
) -> (packet: Vec<u8>)
    requires
        payload@.len() <= MAX_PAYLOAD,
    ensures
        packet@ == voice_packet(key@, sequence, timestamp, ssrc, payload@),
        packet@.len() == HEADER_SIZE + payload@.len() + TAG_SIZE,
        carries(packet@, key@, payload@),
{
    let head = build_header(sequence, timestamp, ssrc);
    let nonce_bytes = build_nonce(&head);
    let packet = match seal(key, &nonce_bytes, payload) {
        Ok(content) => join_packet(&head, content.as_slice()),
        Err(_) => Vec::new(),
    };
    assert(packet@ =~= voice_packet(key@, sequence, timestamp, ssrc, payload@));
    assert forall|buffer: Seq<u8>| #[trigger]
        packet@.is_prefix_of(buffer) implies voice_payload(key@, buffer, packet@.len() as int)
        == Ok::<Seq<u8>, PacketError>(payload@) by {
        assert forall|i: int| 0 <= i < packet@.len() implies #[trigger] buffer[i] == packet@[i] by {
            assert(buffer.subrange(0, packet@.len() as int)[i] == packet@[i]);
        }
        assert(nonce(buffer) =~= nonce(head@));
        assert(buffer.subrange(HEADER_SIZE as int, packet@.len() as int) =~= sealed(
            key@,
            nonce(head@),
            payload@,
        ));
        assert(buffer[0] == 0x80);
        assert(!has_extension(0x80)) by (bit_vector);
    }
    packet
}

/// Opens the voice packet in the first `len` bytes of a buffer.
pub fn open_voice_packet(key: &[u8; 32], buffer: &[u8], len: usize) -> (r: Result<
    Vec<u8>,
    PacketError,
>)
    requires
        HEADER_SIZE <= buffer@.len(),
        len <= buffer@.len(),
    ensures
        match r {
            Ok(payload) => voice_payload(key@, buffer@, len as int) == Ok::<Seq<u8>, PacketError>(
                payload@,
            ),
            Err(e) => voice_payload(key@, buffer@, len as int) == Err::<Seq<u8>, PacketError>(e),
        },
        r matches Ok(payload) ==> HEADER_SIZE + TAG_SIZE + (if has_extension(buffer@[0]) {
            EXTENSION_SIZE as int
        } else {
            0
        }) + payload@.len() == len,
{
    if len < HEADER_SIZE {
        return Err(PacketError::Truncated);
    }
    let nonce_bytes = build_nonce(buffer);
    match unseal(key, &nonce_bytes, slice_subrange(buffer, HEADER_SIZE, len)) {
        Err(_) => Err(PacketError::Forged),
        Ok(content) => match strip_extension(buffer[0], content.as_slice()) {
            None => Err(PacketError::MissingExtension),
            Some(payload) => Ok(payload),
        },
    }
}

/// Builds the packet that asks for our address.
pub fn build_discovery_request(ssrc: u32, port: u16) -> (packet: [u8; 74])
    ensures
        packet@ == discovery_request(ssrc, port),
{
    let mut packet: [u8; 74] = [0; 74];
    write_be16(&mut packet, 0, 1);
    write_be16(&mut packet, 2, 70);
    write_be32(&mut packet, 4, ssrc);
    write_be16(&mut packet, 72, port);
    assert(packet@ =~= discovery_request(ssrc, port));
    packet
}

/// Reads our address and port from the answer to a discovery request; nothing
/// where the address is no text.
pub fn read_discovery_answer(buffer: &[u8]) -> (r: Option<(String, u16)>)
    requires
        buffer@.len() >= DISCOVERY_SIZE,
    ensures
        match r {
            Some((address, port)) => {
                &&& valid_utf8(discovered_address(buffer@))
                &&& address@ == decode_utf8(discovered_address(buffer@))
                &&& port == discovered_port(buffer@)
            },
            None => !valid_utf8(discovered_address(buffer@)),
        },
{
    let ghost field = buffer@.subrange(8, 72);
    let ghost not_zero = |b: u8| b != 0;
    let mut bytes: Vec<u8> = Vec::new();
    let mut i: usize = 0;
    while i < 64
        invariant
            i <= 64,
            buffer@.len() >= DISCOVERY_SIZE,
            field == buffer@.subrange(8, 72),
            not_zero == (|b: u8| b != 0),
            bytes@ == field.take(i as int).filter(not_zero),
        decreases 64 - i,
    {
        let b = buffer[8 + i];
        proof {
            reveal(Seq::filter);
            assert(field.take(i + 1).drop_last() =~= field.take(i as int));
            assert(field.take(i + 1).last() == b);
        }
        if b != 0 {
            bytes.push(b);
        }
        i += 1;
    }
    assert(field.take(64) =~= field);
    match text_of(bytes.as_slice()) {
        Ok(address) => Some((address.to_owned(), read_be16(buffer, 72))),
        Err(_) => None,
    }
}

/// Takes the extension off the plain content of a packet, where the first byte
/// of the packet announces one; gives nothing where the content is too short.
pub fn strip_extension(first: u8, content: &[u8]) -> (r: Option<Vec<u8>>)
    ensures
        match r {
            Some(payload) => without_extension(first, content@) == Some(payload@),
            None => without_extension(first, content@) is None,
        },
{
    let start: usize = if first & 0x10 > 0 {
        EXTENSION_SIZE
    } else {
        0
    };
    if start <= content.len() {
        let payload = slice_subrange(content, start, content.len());
        assert(payload@ =~= content@.skip(start as int));
        assert(content@.skip(0) =~= content@);
        Some(vstd::slice::slice_to_vec(payload))
    } else {
        None
    }
}

/// An address without zero bytes, filled up with zeros, is found again in the
/// answer to a discovery request, and so is the port behind it.
pub proof fn lemma_discovery_answer_read_back(buffer: Seq<u8>, address: Seq<char>, port: u16)
    requires
        buffer.len() >= DISCOVERY_SIZE,
        encode_utf8(address).len() <= 64,
        forall|i: int|
            0 <= i < encode_utf8(address).len() ==> #[trigger] encode_utf8(address)[i] != 0,
        buffer.subrange(8, 72) == encode_utf8(address) + zeros(
            (64 - encode_utf8(address).len()) as nat,
        ),
        buffer.subrange(72, 74) == be16(port),
    ensures
        valid_utf8(discovered_address(buffer)),
        decode_utf8(discovered_address(buffer)) == address,
        discovered_port(buffer) == port,
{
    broadcast use {vstd::utf8::encode_utf8_valid_utf8, vstd::utf8::encode_utf8_decode_utf8};

    lemma_filter_zeros(encode_utf8(address), (64 - encode_utf8(address).len()) as nat);
    assert(buffer.subrange(72, 74)[0] == buffer[72]);
    assert(buffer.subrange(72, 74)[1] == buffer[73]);
    lemma_be16_read_back(port);
}

/// The number that four bytes of a packet stand for, the most significant
/// first.
pub open spec fn number_at(packet: Seq<u8>, at: int) -> int {
    packet[at] * 0x100_0000 + packet[at + 1] * 0x1_0000 + packet[at + 2] * 0x100 + packet[at + 3]
}

/// A header has twelve bytes, and whoever reads the fields of RTP in it finds
/// the number, the timestamp and the source.
pub proof fn lemma_header_is_understood(sequence: u16, timestamp: u32, ssrc: u32)
    ensures
        ({
            let head = header(sequence, timestamp, ssrc);
            &&& head.len() == 12
            &&& head[0] == 0x80
            &&& head[1] == 0x78
            &&& head[2] * 0x100 + head[3] == sequence
            &&& number_at(head, 4) == timestamp
            &&& number_at(head, 8) == ssrc
        }),
{
}

/// Whoever reads the fields of a discovery request finds its type, its length,
/// the source and the port, and zeros in place of the address.
pub proof fn lemma_discovery_request_is_understood(ssrc: u32, port: u16)
    ensures
        ({
            let packet = discovery_request(ssrc, port);
            &&& packet.len() == 74
            &&& packet[0] * 0x100 + packet[1] == 1
            &&& packet[2] * 0x100 + packet[3] == 70
            &&& number_at(packet, 4) == ssrc
            &&& forall|i: int| 8 <= i < 72 ==> packet[i] == 0
            &&& packet[72] * 0x100 + packet[73] == port
        }),
{
}

/// What is taken off the content of a packet is its first eight bytes, where
/// the fifth bit of the packet says so, and nothing otherwise.
pub proof fn lemma_extension_is_taken_off(first: u8, content: Seq<u8>)
    ensures
        first & 0x10 == 0 ==> without_extension(first, content) == Some(content),
        first & 0x10 != 0 && content.len() >= 8 ==> {
            &&& without_extension(first, content) is Some
            &&& content.take(8) + without_extension(first, content).unwrap() == content
        },
        first & 0x10 != 0 && content.len() < 8 ==> without_extension(first, content) is None,
{
    assert(first & 0x10 != 0 ==> first & 0x10 > 0) by (bit_vector);
    if content.len() >= 8 {
        assert(content.take(8) + content.skip(8) =~= content);
    }
}

/// A packet is opened under its own first twelve bytes, filled up with zeros,
/// and all that is behind them: what is found there, without an announced
/// extension, is the payload.
pub proof fn lemma_packet_is_opened(key: Seq<u8>, buffer: Seq<u8>, len: int)
    requires
        0 <= len <= buffer.len(),
        12 <= buffer.len(),
    ensures
        ({
            let found = opened(
                key,
                buffer.take(12) + Seq::new(12, |i: int| 0u8),
                buffer.subrange(12, len),
            );
            let payload = voice_payload(key, buffer, len);
            &&& len < 12 ==> payload == Err::<Seq<u8>, PacketError>(PacketError::Truncated)
            &&& len >= 12 && found is None ==> payload == Err::<Seq<u8>, PacketError>(
                PacketError::Forged,
            )
            &&& len >= 12 && buffer[0] & 0x10 == 0 ==> (found matches Some(content)
                ==> payload == Ok::<Seq<u8>, PacketError>(content))
            &&& len >= 12 && buffer[0] & 0x10 != 0 ==> (found matches Some(content)
                ==> content.len() >= 8 ==> payload == Ok::<Seq<u8>, PacketError>(
                content.subrange(8, content.len() as int),
            ))
            &&& len >= 12 && buffer[0] & 0x10 != 0 ==> (found matches Some(content)
                ==> content.len() < 8 ==> payload == Err::<Seq<u8>, PacketError>(
                PacketError::MissingExtension,
            ))
        }),
{
    assert(nonce(buffer) =~= buffer.take(12) + Seq::new(12, |i: int| 0u8));
    let found = opened(key, nonce(buffer), buffer.subrange(12, len));
    if found is Some {
        let content = found.unwrap();
        lemma_extension_is_taken_off(buffer[0], content);
        if content.len() >= 8 {
            assert(content.skip(8) =~= content.subrange(8, content.len() as int));
        }
    }
}

/// A discovery request has its fixed size, and names the port where the answer
/// does.
pub proof fn lemma_discovery_request_names_port(ssrc: u32, port: u16)
    ensures
        discovery_request(ssrc, port).len() == DISCOVERY_SIZE,
        discovered_port(discovery_request(ssrc, port)) == port,
{
    lemma_be16_read_back(port);
}

/// Leaving the zeros out of bytes that are filled up with zeros gives the
/// bytes back.
proof fn lemma_filter_zeros(bytes: Seq<u8>, n: nat)
    requires
        forall|i: int| 0 <= i < bytes.len() ==> bytes[i] != 0,
    ensures
        (bytes + zeros(n)).filter(|b: u8| b != 0) == bytes,
    decreases n, bytes.len(),
{
    reveal(Seq::filter);
    let all = bytes + zeros(n);
    if n > 0 {
        assert(all.drop_last() =~= bytes + zeros((n - 1) as nat));
        lemma_filter_zeros(bytes, (n - 1) as nat);
    } else if bytes.len() > 0 {
        assert(all.drop_last() =~= bytes.drop_last() + zeros(0));
        assert(all.last() == bytes.last());
        lemma_filter_zeros(bytes.drop_last(), 0);
        assert(bytes.drop_last().push(bytes.last()) =~= bytes);
    } else {
        assert(all =~= bytes);
    }
}

/// Two voice packets of the same source have the same nonce only if they have
/// the same number and the same timestamp.
pub proof fn lemma_nonce_tells_packets_apart(
    ssrc: u32,
    first: (u16, u32),
    second: (u16, u32),
)
    requires
        nonce(header(first.0, first.1, ssrc)) == nonce(header(second.0, second.1, ssrc)),
    ensures
        first == second,
{
    let a = header(first.0, first.1, ssrc);
    let b = header(second.0, second.1, ssrc);
    assert forall|i: int| 0 <= i < 12 implies #[trigger] a[i] == b[i] by {
        assert(nonce(a)[i] == a[i]);
        assert(nonce(b)[i] == b[i]);
    }
    assert(be16(first.0) =~= be16(second.0)) by {
        assert(a[2] == b[2] && a[3] == b[3]);
    }
    assert(be32(first.1) =~= be32(second.1)) by {
        assert(a[4] == b[4] && a[5] == b[5] && a[6] == b[6] && a[7] == b[7]);
    }
    lemma_be16_read_back(first.0);
    lemma_be16_read_back(second.0);
    lemma_be32_injective(first.1, second.1);
}

} // verus!
