//! What audio datagrams carry, byte by byte.

use vstd::prelude::*;

use crate::audio::packet::{AudioFecHeader, RtpAudioHeader};
use crate::bytes::{be_bytes, read_be_u16, read_be_u32};

verus! {

/// The number that two bytes stand for, the more significant first.
pub open spec fn number_of_two(bytes: Seq<u8>, at: int) -> int {
    bytes[at] * 256 + bytes[at + 1]
}

/// The number that four bytes stand for, the most significant first.
pub open spec fn number_of_four(bytes: Seq<u8>, at: int) -> int {
    ((bytes[at] * 256 + bytes[at + 1]) * 256 + bytes[at + 2]) * 256 + bytes[at + 3]
}

/// Whether a datagram carries data: its type is 97, the sequence number and the
/// timestamp follow, and the payload comes after twelve bytes.
pub open spec fn carries_data(
    bytes: Seq<u8>,
    number: u16,
    timestamp: u32,
    payload: Seq<u8>,
) -> bool {
    &&& bytes.len() >= 12
    &&& bytes[1] == 97
    &&& number_of_two(bytes, 2) == number
    &&& number_of_four(bytes, 4) == timestamp
    &&& bytes.skip(12) == payload
}

/// Whether a datagram carries parity: its type is 127, and after twelve bytes
/// come the place in the block, the sequence number and the timestamp that the
/// block starts at, and after twelve more the payload.
pub open spec fn carries_parity(
    bytes: Seq<u8>,
    index: u8,
    base: u16,
    timestamp: u32,
    payload: Seq<u8>,
) -> bool {
    &&& bytes.len() >= 24
    &&& bytes[1] == 127
    &&& bytes[12] == index
    &&& number_of_two(bytes, 14) == base
    &&& number_of_four(bytes, 16) == timestamp
    &&& bytes.skip(24) == payload
}

/// The two bytes of a number, the more significant first.
pub open spec fn two_bytes(number: u16) -> Seq<u8> {
    seq![(number / 256) as u8, (number % 256) as u8]
}

/// The four bytes of a number, the most significant first.
pub open spec fn four_bytes(number: u32) -> Seq<u8> {
    seq![
        (number / 0x100_0000) as u8,
        (number / 0x1_0000 % 256) as u8,
        (number / 256 % 256) as u8,
        (number % 256) as u8,
    ]
}

/// A datagram with data, as a host lays it out.
pub open spec fn data_datagram(
    first: u8,
    number: u16,
    timestamp: u32,
    ssrc: u32,
    payload: Seq<u8>,
) -> Seq<u8> {
    seq![first, 97u8] + two_bytes(number) + four_bytes(timestamp) + four_bytes(ssrc) + payload
}

/// A datagram with parity, as a host lays it out after `header`, which takes ten
/// bytes.
pub open spec fn parity_datagram(
    first: u8,
    header: Seq<u8>,
    index: u8,
    payload_type: u8,
    base: u16,
    timestamp: u32,
    ssrc: u32,
    payload: Seq<u8>,
) -> Seq<u8> {
    seq![first, 127u8] + header + seq![index, payload_type] + two_bytes(base) + four_bytes(timestamp)
        + four_bytes(ssrc) + payload
}

/// What a host lays out is what a datagram carries.
pub proof fn law_datagrams_carry_what_is_laid_out(
    first: u8,
    number: u16,
    timestamp: u32,
    ssrc: u32,
    payload: Seq<u8>,
    header: Seq<u8>,
    index: u8,
    payload_type: u8,
)
    requires
        header.len() == 10,
    ensures
        carries_data(
            data_datagram(first, number, timestamp, ssrc, payload),
            number,
            timestamp,
            payload,
        ),
        carries_parity(
            parity_datagram(
                first,
                header,
                index,
                payload_type,
                number,
                timestamp,
                ssrc,
                payload,
            ),
            index,
            number,
            timestamp,
            payload,
        ),
{
    let data = data_datagram(first, number, timestamp, ssrc, payload);
    assert(data.skip(12) =~= payload);
    let parity = parity_datagram(
        first,
        header,
        index,
        payload_type,
        number,
        timestamp,
        ssrc,
        payload,
    );
    assert(parity.skip(24) =~= payload);
}

/// A header that is read has the numbers that its bytes stand for, each in its
/// place.
pub proof fn law_headers_are_read_as_they_are(
    bytes: &[u8],
    at: usize,
    rtp: RtpAudioHeader,
    fec: AudioFecHeader,
)
    requires
        at + 12 <= bytes@.len(),
        call_ensures(RtpAudioHeader::deserialize, (bytes, at), rtp),
        call_ensures(AudioFecHeader::deserialize, (bytes, at), fec),
    ensures
        rtp.header == bytes@[at as int],
        rtp.packet_type == bytes@[at + 1],
        rtp.sequence_number == number_of_two(bytes@, at + 2),
        rtp.timestamp == number_of_four(bytes@, at + 4),
        rtp.ssrc == number_of_four(bytes@, at + 8),
        fec.fec_shard_index == bytes@[at as int],
        fec.payload_type == bytes@[at + 1],
        fec.base_sequence_number == number_of_two(bytes@, at + 2),
        fec.base_timestamp == number_of_four(bytes@, at + 4),
        fec.ssrc == number_of_four(bytes@, at + 8),
{
}

/// The bytes of a header: two numbers of one byte each, one of two and two of
/// four.
pub open spec fn header_bytes(a: u8, b: u8, c: u16, d: u32, e: u32) -> Seq<u8> {
    seq![a, b] + two_bytes(c) + four_bytes(d) + four_bytes(e)
}

/// The numbers stand where the layout says.
proof fn lemma_header_bytes(a: u8, b: u8, c: u16, d: u32, e: u32)
    ensures
        header_bytes(a, b, c, d, e).len() == 12,
        header_bytes(a, b, c, d, e)[0] == a,
        header_bytes(a, b, c, d, e)[1] == b,
        number_of_two(header_bytes(a, b, c, d, e), 2) == c,
        number_of_four(header_bytes(a, b, c, d, e), 4) == d,
        number_of_four(header_bytes(a, b, c, d, e), 8) == e,
{
    let bytes = header_bytes(a, b, c, d, e);
    assert(bytes[2] == two_bytes(c)[0] && bytes[3] == two_bytes(c)[1]);
    assert(bytes[4] == four_bytes(d)[0] && bytes[5] == four_bytes(d)[1]);
    assert(bytes[6] == four_bytes(d)[2] && bytes[7] == four_bytes(d)[3]);
    assert(bytes[8] == four_bytes(e)[0] && bytes[9] == four_bytes(e)[1]);
    assert(bytes[10] == four_bytes(e)[2] && bytes[11] == four_bytes(e)[3]);
    lemma_four_bytes(d);
    lemma_four_bytes(e);
}

/// The bytes of a number stand for it.
proof fn lemma_four_bytes(number: u32)
    ensures
        number_of_four(four_bytes(number), 0) == number,
{
}

/// Reading a header gives back all that was written to it.
pub proof fn law_reading_gives_back_what_was_written(
    bytes: &[u8],
    rtp: RtpAudioHeader,
    read: RtpAudioHeader,
)
    requires
        bytes@ == header_bytes(
            rtp.header,
            rtp.packet_type,
            rtp.sequence_number,
            rtp.timestamp,
            rtp.ssrc,
        ),
        call_ensures(RtpAudioHeader::deserialize, (bytes, 0usize), read),
    ensures
        read == rtp,
{
    lemma_header_bytes(
        rtp.header,
        rtp.packet_type,
        rtp.sequence_number,
        rtp.timestamp,
        rtp.ssrc,
    );
}

/// Reading a parity header gives back all that was written to it.
pub proof fn law_reading_parity_gives_back_what_was_written(
    bytes: &[u8],
    fec: AudioFecHeader,
    read: AudioFecHeader,
)
    requires
        bytes@ == header_bytes(
            fec.fec_shard_index,
            fec.payload_type,
            fec.base_sequence_number,
            fec.base_timestamp,
            fec.ssrc,
        ),
        call_ensures(AudioFecHeader::deserialize, (bytes, 0usize), read),
    ensures
        read == fec,
{
    lemma_header_bytes(
        fec.fec_shard_index,
        fec.payload_type,
        fec.base_sequence_number,
        fec.base_timestamp,
        fec.ssrc,
    );
}

/// The numbers that are read are those that the bytes stand for, and the bytes
/// of a number stand for it.
pub proof fn law_numbers_are_read_as_they_are(
    bytes: &[u8],
    at: usize,
    short: u16,
    long: u32,
    number: u32,
)
    requires
        at + 4 <= bytes@.len(),
        call_ensures(read_be_u16, (bytes, at), short),
        call_ensures(read_be_u32, (bytes, at), long),
    ensures
        short == number_of_two(bytes@, at as int),
        long == number_of_four(bytes@, at as int),
        be_bytes(number).len() == 4,
        number_of_four(be_bytes(number), 0) == number,
{
}

/// The headers of a datagram with data.
pub(crate) proof fn lemma_carries_data(
    bytes: Seq<u8>,
    number: u16,
    timestamp: u32,
    payload: Seq<u8>,
)
    requires
        carries_data(bytes, number, timestamp, payload),
    ensures
        RtpAudioHeader::parsed(bytes, 0).packet_type == 97,
        RtpAudioHeader::parsed(bytes, 0).sequence_number == number,
        RtpAudioHeader::parsed(bytes, 0).timestamp == timestamp,
{
}

/// The headers of a datagram with parity.
pub(crate) proof fn lemma_carries_parity(
    bytes: Seq<u8>,
    index: u8,
    base: u16,
    timestamp: u32,
    payload: Seq<u8>,
)
    requires
        carries_parity(bytes, index, base, timestamp, payload),
    ensures
        RtpAudioHeader::parsed(bytes, 0).packet_type == 127,
        AudioFecHeader::parsed(bytes, 12).fec_shard_index == index,
        AudioFecHeader::parsed(bytes, 12).base_sequence_number == base,
        AudioFecHeader::parsed(bytes, 12).base_timestamp == timestamp,
{
}

} // verus!
