//! MIDI 1.0 bytes and Universal MIDI Packet words.
//!
//! Windows MIDI Services takes and gives packets of one or two 32-bit words.
use vstd::prelude::*;

use crate::bits::{byte_at, lemma_byte_at, lemma_bytes_of_word, lemma_high_nibble, lemma_word_of, word_of};

verus! {

/// A packet: the number of words, the first word and the second one (0 when
/// there is one word only).
pub type Packet = (u8, u32, u32);

/// Number of packets of a SysEx payload, six bytes to a packet.
pub open spec fn packet_count(payload: Seq<u8>) -> int {
    (payload.len() as int + 5) / 6
}

/// Number of payload bytes in packet `k`.
pub open spec fn chunk_len(payload: Seq<u8>, k: int) -> int {
    if payload.len() - 6 * k < 6 {
        payload.len() - 6 * k
    } else {
        6
    }
}

/// Where packet `k` of `n` stands: 0 for a complete message, 1 for the first
/// packet, 2 for one in the middle, 3 for the last.
pub open spec fn chunk_status(k: int, n: int) -> int {
    if n == 1 {
        0
    } else if k == 0 {
        1
    } else if k == n - 1 {
        3
    } else {
        2
    }
}

/// Byte `j` of packet `k`, or 0 past the end of the payload.
pub open spec fn chunk_byte(payload: Seq<u8>, k: int, j: int) -> u8 {
    if j < chunk_len(payload, k) {
        payload[6 * k + j]
    } else {
        0
    }
}

/// Packet `k` of a SysEx payload. The second word carries the first four
/// bytes of the packet's share, the low half of the first word the fifth and
/// the sixth.
pub open spec fn sysex_packet(payload: Seq<u8>, k: int) -> Packet {
    (
        2,
        word_of(
            0x30,
            (chunk_status(k, packet_count(payload)) * 16 + chunk_len(payload, k)) as u8,
            chunk_byte(payload, k, 4),
            chunk_byte(payload, k, 5),
        ),
        word_of(
            chunk_byte(payload, k, 0),
            chunk_byte(payload, k, 1),
            chunk_byte(payload, k, 2),
            chunk_byte(payload, k, 3),
        ),
    )
}

/// The packets of a SysEx payload.
pub open spec fn sysex_packets(payload: Seq<u8>) -> Seq<Packet> {
    Seq::new(packet_count(payload) as nat, |k: int| sysex_packet(payload, k))
}

/// Position of the byte that ends a SysEx message, or the length of the data.
pub open spec fn sysex_stop(data: Seq<u8>) -> int {
    match data.index_of_first(0xF7u8) {
        Some(i) => i,
        None => data.len() as int,
    }
}

/// The packets of a stream of MIDI bytes. A channel message that is cut off
/// ends the stream; a byte that starts no message is skipped.
pub open spec fn packets_of(data: Seq<u8>) -> Seq<Packet>
    decreases data.len(),
{
    if data.len() == 0 {
        Seq::empty()
    } else {
        let status = data[0];
        if 0xC0 <= status < 0xE0 {
            if data.len() < 2 {
                Seq::empty()
            } else {
                seq![(1u8, word_of(0x20, status, data[1], 0), 0u32)] + packets_of(data.skip(2))
            }
        } else if 0x80 <= status < 0xF0 {
            if data.len() < 3 {
                Seq::empty()
            } else {
                seq![(1u8, word_of(0x20, status, data[1], data[2]), 0u32)] + packets_of(
                    data.skip(3),
                )
            }
        } else if status == 0xF0 {
            let end = sysex_stop(data);
            proof {
                data.index_of_first_ensures(0xF7u8);
            }
            sysex_packets(data.subrange(1, end)) + packets_of(
                data.skip(if end < data.len() { end + 1 } else { end }),
            )
        } else if status >= 0xF8 {
            seq![(1u8, word_of(0x10, status, 0, 0), 0u32)] + packets_of(data.skip(1))
        } else {
            packets_of(data.skip(1))
        }
    }
}

/// Joins four bytes to a word.
fn join(b3: u8, b2: u8, b1: u8, b0: u8) -> (w: u32)
    ensures
        w == word_of(b3, b2, b1, b0),
{
    proof {
        lemma_word_of(b3, b2, b1, b0);
    }
    (b3 as u32) << 24 | (b2 as u32) << 16 | (b1 as u32) << 8 | (b0 as u32)
}

/// Writes the packets of `data[start..end]` behind `result`.
fn push_sysex(data: &[u8], start: usize, end: usize, result: &mut Vec<Packet>)
    requires
        start <= end <= data@.len(),
    ensures
        final(result)@ == old(result)@ + sysex_packets(data@.subrange(start as int, end as int)),
{
    let ghost payload = data@.subrange(start as int, end as int);
    let total: usize = (end - start) / 6 + (if (end - start) % 6 == 0 {
        0
    } else {
        1
    });
    let mut k: usize = 0;
    let mut pos: usize = start;
    assert(result@ =~= old(result)@ + sysex_packets(payload).take(0));
    while k < total
        invariant
            start <= pos <= end <= data@.len(),
            k <= total,
            total == packet_count(payload),
            pos == if k < total { start + 6 * k } else { end as int },
            payload == data@.subrange(start as int, end as int),
            result@ == old(result)@ + sysex_packets(payload).take(k as int),
        decreases total - k,
    {
        let len: usize = if end - pos < 6 {
            end - pos
        } else {
            6
        };
        let status: u8 = if total == 1 {
            0
        } else if k == 0 {
            1
        } else if k == total - 1 {
            3
        } else {
            2
        };
        let b0: u8 = if len > 0 { data[pos] } else { 0 };
        let b1: u8 = if len > 1 { data[pos + 1] } else { 0 };
        let b2: u8 = if len > 2 { data[pos + 2] } else { 0 };
        let b3: u8 = if len > 3 { data[pos + 3] } else { 0 };
        let b4: u8 = if len > 4 { data[pos + 4] } else { 0 };
        let b5: u8 = if len > 5 { data[pos + 5] } else { 0 };
        let word0: u32 = join(0x30, status * 16 + len as u8, b4, b5);
        let word1: u32 = join(b0, b1, b2, b3);
        let ghost before = result@;
        result.push((2, word0, word1));
        assert(result@ =~= old(result)@ + sysex_packets(payload).take(k + 1)) by {
            assert(sysex_packets(payload)[k as int] == sysex_packet(payload, k as int));
            assert((2u8, word0, word1) == sysex_packet(payload, k as int));
        }
        k += 1;
        pos += len;
    }
    assert(sysex_packets(payload).take(k as int) =~= sysex_packets(payload));
}

/// Turns MIDI 1.0 bytes into packets.
pub fn midi1_to_ump_messages(data: &[u8]) -> (result: Vec<Packet>)
    ensures
        result@ == packets_of(data@),
{
    let mut result: Vec<Packet> = Vec::new();
    let mut i: usize = 0;
    assert(data@.skip(0) =~= data@);
    while i < data.len()
        invariant
            i <= data@.len(),
            result@ + packets_of(data@.skip(i as int)) =~= packets_of(data@),
        decreases data@.len() - i,
    {
        let ghost rest = data@.skip(i as int);
        let status: u8 = data[i];
        if 0xC0 <= status && status < 0xE0 {
            if data.len() - i < 2 {
                return result;
            }
            result.push((1, join(0x20, status, data[i + 1], 0), 0));
            assert(rest.skip(2) =~= data@.skip(i + 2));
            i += 2;
        } else if 0x80 <= status && status < 0xF0 {
            if data.len() - i < 3 {
                return result;
            }
            result.push((1, join(0x20, status, data[i + 1], data[i + 2]), 0));
            assert(rest.skip(3) =~= data@.skip(i + 3));
            i += 3;
        } else if status == 0xF0 {
            let end: usize = find_end(data, i);
            push_sysex(data, i + 1, end, &mut result);
            assert(data@.subrange(i + 1, end as int) =~= rest.subrange(1, end - i));
            let next: usize = if end < data.len() {
                end + 1
            } else {
                end
            };
            assert(rest.skip(next - i) =~= data@.skip(next as int));
            i = next;
        } else if status >= 0xF8 {
            result.push((1, join(0x10, status, 0, 0), 0));
            assert(rest.skip(1) =~= data@.skip(i + 1));
            i += 1;
        } else {
            assert(rest.skip(1) =~= data@.skip(i + 1));
            i += 1;
        }
    }
    assert(data@.skip(i as int) =~= Seq::<u8>::empty());
    result
}

/// Position of the byte that ends the SysEx message at `i`, or the length.
fn find_end(data: &[u8], i: usize) -> (end: usize)
    requires
        i < data@.len(),
        data@[i as int] == 0xF0,
    ensures
        end - i == sysex_stop(data@.skip(i as int)),
        i < end <= data@.len(),
{
    let ghost rest = data@.skip(i as int);
    let len: usize = data.len();
    let mut end: usize = i + 1;
    while end < len && data[end] != 0xF7
        invariant
            len == data@.len(),
            i < end <= data@.len(),
            rest == data@.skip(i as int),
            rest[0] == 0xF0,
            forall|j: int| 0 <= j < end - i ==> rest[j] != 0xF7,
        decreases data@.len() - end,
    {
        end += 1;
    }
    proof {
        rest.index_of_first_ensures(0xF7u8);
        if end < data@.len() {
            assert(rest[end - i] == 0xF7);
        }
    }
    end
}

/// Byte `j` of the share of a SysEx packet.
pub open spec fn share_byte(w0: u32, w1: u32, j: int) -> u8 {
    if j < 4 {
        byte_at(w1, j)
    } else {
        byte_at(w0, j - 2)
    }
}

/// The MIDI 1.0 bytes of a packet.
pub open spec fn packet_bytes(word_count: u8, w0: u32, w1: u32) -> Seq<u8> {
    let kind = byte_at(w0, 0) / 16;
    let status = byte_at(w0, 1);
    let data1 = byte_at(w0, 2) % 128;
    let data2 = byte_at(w0, 3) % 128;
    if kind == 1 {
        seq![status]
    } else if kind == 2 {
        if 0xC0 <= status < 0xE0 {
            seq![status, data1]
        } else {
            seq![status, data1, data2]
        }
    } else if kind == 3 && word_count >= 2 {
        let place = status / 16;
        let carried = if status % 16 < 6 { (status % 16) as int } else { 6 };
        (if place == 0 || place == 1 {
            seq![0xF0u8]
        } else {
            Seq::empty()
        }) + Seq::new(carried as nat, |j: int| share_byte(w0, w1, j)) + (if place == 0 || place == 3 {
            seq![0xF7u8]
        } else {
            Seq::empty()
        })
    } else if kind == 4 && word_count >= 2 {
        seq![status, data1, (w1 / 0x200_0000) as u8]
    } else {
        Seq::empty()
    }
}

/// Turns the words of a received packet into MIDI 1.0 bytes. A MIDI 2.0
/// channel message is brought down to seven-bit values.
pub fn ump_to_midi1(word_count: u8, w0: u32, w1: u32) -> (result: Vec<u8>)
    ensures
        result@ == packet_bytes(word_count, w0, w1),
{
    let mut result: Vec<u8> = Vec::new();
    proof {
        lemma_byte_at(w0);
        lemma_byte_at(w1);
    }
    let msg_type: u32 = (w0 >> 28) & 0x0F;
    let status: u8 = ((w0 >> 16) & 0xFF) as u8;
    let data1: u8 = ((w0 >> 8) & 0x7F) as u8;
    let data2: u8 = (w0 & 0x7F) as u8;
    if msg_type == 1 {
        result.push(status);
    } else if msg_type == 2 {
        result.push(status);
        result.push(data1);
        proof {
            lemma_high_nibble(status);
        }
        let high: u8 = status & 0xF0;
        if high != 0xC0 && high != 0xD0 {
            result.push(data2);
        }
    } else if msg_type == 3 && word_count >= 2 {
        let place: u32 = (w0 >> 20) & 0x0F;
        let num_bytes: u32 = (w0 >> 16) & 0x0F;
        if place == 0 || place == 1 {
            result.push(0xF0);
        }
        if num_bytes > 0 {
            result.push(((w1 >> 24) & 0xFF) as u8);
        }
        if num_bytes > 1 {
            result.push(((w1 >> 16) & 0xFF) as u8);
        }
        if num_bytes > 2 {
            result.push(((w1 >> 8) & 0xFF) as u8);
        }
        if num_bytes > 3 {
            result.push(((w1 >> 0) & 0xFF) as u8);
        }
        if num_bytes > 4 {
            result.push(((w0 >> 8) & 0xFF) as u8);
        }
        if num_bytes > 5 {
            result.push(((w0 >> 0) & 0xFF) as u8);
        }
        if place == 0 || place == 3 {
            result.push(0xF7);
        }
    } else if msg_type == 4 && word_count >= 2 {
        let value_16: u16 = ((w1 >> 16) & 0xFFFF) as u16;
        assert(value_16 >> 9 == value_16 / 512) by (bit_vector);
        result.push(status);
        result.push(data1);
        result.push((value_16 >> 9) as u8);
    }
    assert(result@ =~= packet_bytes(word_count, w0, w1));
    result
}

/// A complete channel message with seven-bit data survives the way into a
/// packet and back, whatever follows it.
pub proof fn law_channel_round_trip(message: Seq<u8>, rest: Seq<u8>)
    requires
        message.len() > 0,
        0x80 <= message[0] < 0xF0,
        message.len() == if 0xC0 <= message[0] < 0xE0 { 2int } else { 3 },
        forall|i: int| 1 <= i < message.len() ==> message[i] < 128,
    ensures
        packets_of(message + rest).len() > 0,
        ({
            let p = packets_of(message + rest)[0];
            packet_bytes(p.0, p.1, p.2) == message
        }),
        packets_of(message + rest).drop_first() == packets_of(rest),
{
    let data = message + rest;
    let n = message.len() as int;
    assert(data[0] == message[0] && data[1] == message[1]);
    assert(message[1] < 128);
    assert(data.skip(n) =~= rest);
    let d2 = if n == 3 { message[2] } else { 0 };
    if n == 3 {
        assert(data[2] == message[2]);
        assert(message[2] < 128);
    }
    lemma_bytes_of_word(0x20, message[0], message[1], d2);
    let p = packets_of(data)[0];
    assert(packet_bytes(p.0, p.1, p.2) =~= message);
    assert(packets_of(data).drop_first() =~= packets_of(rest));
}

/// A realtime message survives the way into a packet and back.
pub proof fn law_realtime_round_trip(status: u8, rest: Seq<u8>)
    requires
        status >= 0xF8,
    ensures
        packets_of(seq![status] + rest).len() > 0,
        ({
            let p = packets_of(seq![status] + rest)[0];
            packet_bytes(p.0, p.1, p.2) == seq![status]
        }),
        packets_of(seq![status] + rest).drop_first() == packets_of(rest),
{
    let data = seq![status] + rest;
    assert(data[0] == status);
    lemma_bytes_of_word(0x10, status, 0, 0);
    let p = packets_of(data)[0];
    assert(packet_bytes(p.0, p.1, p.2) =~= seq![status]);
    assert(data.skip(1) =~= rest);
    assert(packets_of(data).drop_first() =~= packets_of(rest));
}

/// Packet `k` of a SysEx payload turns back into its share of the payload, with
/// the start byte before the first packet and the end byte behind the last.
pub proof fn law_sysex_packet(payload: Seq<u8>, k: int)
    requires
        0 <= k < packet_count(payload),
    ensures
        ({
            let p = sysex_packets(payload)[k];
            packet_bytes(p.0, p.1, p.2) == (if k == 0 {
                seq![0xF0u8]
            } else {
                Seq::empty()
            }) + payload.subrange(6 * k, 6 * k + chunk_len(payload, k)) + (if k == packet_count(
                payload,
            ) - 1 {
                seq![0xF7u8]
            } else {
                Seq::empty()
            })
        }),
{
    let n = chunk_len(payload, k);
    let second = (chunk_status(k, packet_count(payload)) * 16 + n) as u8;
    lemma_bytes_of_word(0x30, second, chunk_byte(payload, k, 4), chunk_byte(payload, k, 5));
    lemma_bytes_of_word(
        chunk_byte(payload, k, 0),
        chunk_byte(payload, k, 1),
        chunk_byte(payload, k, 2),
        chunk_byte(payload, k, 3),
    );
    let p = sysex_packets(payload)[k];
    assert(second % 16 == n && second / 16 == chunk_status(k, packet_count(payload)));
    assert(Seq::new(n as nat, |j: int| share_byte(p.1, p.2, j)) =~= payload.subrange(
        6 * k,
        6 * k + n,
    )) by {
        assert forall|j: int| 0 <= j < n implies share_byte(p.1, p.2, j) == payload[6 * k + j] by {
            assert(share_byte(p.1, p.2, j) == chunk_byte(payload, k, j));
        }
    }
    assert(packet_bytes(p.0, p.1, p.2) =~= (if k == 0 {
        seq![0xF0u8]
    } else {
        Seq::empty()
    }) + payload.subrange(6 * k, 6 * k + n) + (if k == packet_count(payload) - 1 {
        seq![0xF7u8]
    } else {
        Seq::empty()
    }));
}

/// The MIDI 1.0 bytes of several packets, one behind the other.
pub open spec fn packets_bytes(packets: Seq<Packet>) -> Seq<u8>
    decreases packets.len(),
{
    if packets.len() == 0 {
        Seq::empty()
    } else {
        let p = packets.last();
        packets_bytes(packets.drop_last()) + packet_bytes(p.0, p.1, p.2)
    }
}

proof fn lemma_sysex_prefix(payload: Seq<u8>, k: int)
    requires
        0 <= k <= packet_count(payload),
    ensures
        packets_bytes(sysex_packets(payload).take(k)) == (if k == 0 {
            Seq::empty()
        } else {
            seq![0xF0u8] + payload.take(
                if 6 * k < payload.len() {
                    6 * k
                } else {
                    payload.len() as int
                },
            ) + (if k == packet_count(payload) {
                seq![0xF7u8]
            } else {
                Seq::empty()
            })
        }),
    decreases k,
{
    let all = sysex_packets(payload);
    if k > 0 {
        lemma_sysex_prefix(payload, k - 1);
        law_sysex_packet(payload, k - 1);
        assert(all.take(k).drop_last() =~= all.take(k - 1));
        assert(all.take(k).last() == all[k - 1]);
        let from = 6 * (k - 1);
        let to = from + chunk_len(payload, k - 1);
        assert(payload.take(to) =~= payload.take(from) + payload.subrange(from, to));
        assert(packets_bytes(all.take(k)) =~= seq![0xF0u8] + payload.take(to) + (if k
            == packet_count(payload) {
            seq![0xF7u8]
        } else {
            Seq::empty()
        }));
    }
}

/// A SysEx message of at least one byte comes back whole from its packets,
/// whatever follows it.
pub proof fn law_sysex_round_trip(payload: Seq<u8>, rest: Seq<u8>)
    requires
        payload.len() >= 1,
        forall|i: int| 0 <= i < payload.len() ==> (#[trigger] payload[i]) < 128,
    ensures
        packets_of(seq![0xF0u8] + payload + seq![0xF7u8] + rest) == sysex_packets(payload)
            + packets_of(rest),
        packets_bytes(sysex_packets(payload)) == seq![0xF0u8] + payload + seq![0xF7u8],
{
    let data = seq![0xF0u8] + payload + seq![0xF7u8] + rest;
    let end = payload.len() as int + 1;
    data.index_of_first_ensures(0xF7u8);
    assert(data[end] == 0xF7);
    assert forall|j: int| 0 <= j < end implies data[j] != 0xF7 by {
        if j > 0 {
            assert(data[j] == payload[j - 1]);
        }
    }
    assert(sysex_stop(data) == end);
    assert(data.subrange(1, end) =~= payload);
    assert(data.skip(end + 1) =~= rest);
    lemma_sysex_prefix(payload, packet_count(payload));
    assert(sysex_packets(payload).take(packet_count(payload)) =~= sysex_packets(payload));
    assert(payload.take(payload.len() as int) =~= payload);
}

/// What a message in front of others becomes: a channel message one word of kind two with
/// its bytes, a realtime message one word of kind one, each in front of the packets of the
/// rest; a byte that starts no message is passed over.
pub proof fn law_packet_of_a_message(
    all: &[u8],
    rest: &[u8],
    message: Seq<u8>,
    r: Vec<Packet>,
    q: Vec<Packet>,
)
    requires
        call_ensures(midi1_to_ump_messages, (all,), r),
        call_ensures(midi1_to_ump_messages, (rest,), q),
        all@ == message + rest@,
        message.len() > 0,
    ensures
        message.len() == 3 && (0x80 <= message[0] < 0xC0 || 0xE0 <= message[0] < 0xF0) ==> r@
            == seq![
            (
                1u8,
                (0x2000_0000 + message[0] * 0x1_0000 + message[1] * 0x100 + message[2]) as u32,
                0u32,
            ),
        ] + q@,
        message.len() == 2 && 0xC0 <= message[0] < 0xE0 ==> r@ == seq![
            (1u8, (0x2000_0000 + message[0] * 0x1_0000 + message[1] * 0x100) as u32, 0u32),
        ] + q@,
        message.len() == 1 && message[0] >= 0xF8 ==> r@ == seq![
            (1u8, (0x1000_0000 + message[0] * 0x1_0000) as u32, 0u32),
        ] + q@,
        message.len() == 1 && (message[0] < 0x80 || 0xF0 < message[0] < 0xF8) ==> r@ == q@,
{
    let s = message + rest@;
    assert(s[0] == message[0]);
    if message.len() == 1 {
        assert(s.skip(1) =~= rest@);
    } else if message.len() == 2 {
        assert(s.skip(2) =~= rest@);
        assert(s[1] == message[1]);
    } else if message.len() == 3 {
        assert(s.skip(3) =~= rest@);
        assert(s[1] == message[1] && s[2] == message[2]);
    }
}

/// Nothing becomes nothing, and so does a channel message that is cut off.
pub proof fn law_nothing_to_pack(data: &[u8], r: Vec<Packet>)
    requires
        call_ensures(midi1_to_ump_messages, (data,), r),
    ensures
        data@.len() == 0 ==> r@.len() == 0,
        data@.len() == 1 && 0x80 <= data@[0] < 0xF0 ==> r@.len() == 0,
        data@.len() == 2 && (0x80 <= data@[0] < 0xC0 || 0xE0 <= data@[0] < 0xF0) ==> r@.len() == 0,
{
}

/// The packets of a SysEx message: two words each of kind three, with their place in the
/// message, the number of bytes that they carry, and six bytes at most: the first four in
/// the second word, the other two in the low half of the first. What follows the message
/// follows its packets.
pub proof fn law_packets_of_sysex(
    all: &[u8],
    rest: &[u8],
    payload: Seq<u8>,
    r: Vec<Packet>,
    q: Vec<Packet>,
    k: int,
)
    requires
        call_ensures(midi1_to_ump_messages, (all,), r),
        call_ensures(midi1_to_ump_messages, (rest,), q),
        all@ == seq![0xF0u8] + payload + seq![0xF7u8] + rest@,
        payload.len() >= 1,
        forall|i: int| 0 <= i < payload.len() ==> (#[trigger] payload[i]) < 128,
    ensures
        ({
            let n = (payload.len() + 5) / 6;
            &&& r@.len() == n + q@.len()
            &&& r@.skip(n as int) == q@
            &&& 0 <= k < n ==> {
                let (words, w0, w1) = r@[k];
                let left = payload.len() - 6 * k;
                let at = |j: int|
                    if j < left {
                        payload[6 * k + j] as int
                    } else {
                        0
                    };
                &&& words == 2
                &&& w0 as int / 0x1000_0000 == 3
                &&& w0 as int / 0x10_0000 % 16 == (if n == 1 {
                    0int
                } else if k == 0 {
                    1
                } else if k == n - 1 {
                    3
                } else {
                    2
                })
                &&& w0 as int / 0x1_0000 % 16 == (if left < 6 {
                    left
                } else {
                    6
                })
                &&& w1 as int / 0x100_0000 == at(0)
                &&& w1 as int / 0x1_0000 % 256 == at(1)
                &&& w1 as int / 0x100 % 256 == at(2)
                &&& w1 as int % 256 == at(3)
                &&& w0 as int / 0x100 % 256 == at(4)
                &&& w0 as int % 256 == at(5)
            }
        }),
{
    law_sysex_round_trip(payload, rest@);
    let n = packet_count(payload);
    assert(r@.skip(n) =~= q@);
    if 0 <= k < n {
        assert(r@[k] == sysex_packet(payload, k));
        let place = chunk_status(k, n) * 16 + chunk_len(payload, k);
        lemma_word_parts(
            0x30,
            place as u8,
            chunk_byte(payload, k, 4),
            chunk_byte(payload, k, 5),
        );
        lemma_word_parts(
            chunk_byte(payload, k, 0),
            chunk_byte(payload, k, 1),
            chunk_byte(payload, k, 2),
            chunk_byte(payload, k, 3),
        );
    }
}

proof fn lemma_word_parts(b3: u8, b2: u8, b1: u8, b0: u8)
    ensures
        word_of(b3, b2, b1, b0) == b3 * 0x100_0000 + b2 * 0x1_0000 + b1 * 0x100 + b0,
        word_of(b3, b2, b1, b0) as int / 0x1000_0000 == b3 as int / 16,
        word_of(b3, b2, b1, b0) as int / 0x10_0000 % 16 == b2 as int / 16,
        word_of(b3, b2, b1, b0) as int / 0x1_0000 % 16 == b2 as int % 16,
        word_of(b3, b2, b1, b0) as int / 0x100_0000 == b3,
        word_of(b3, b2, b1, b0) as int / 0x1_0000 % 256 == b2,
        word_of(b3, b2, b1, b0) as int / 0x100 % 256 == b1,
        word_of(b3, b2, b1, b0) as int % 256 == b0,
{
    lemma_bytes_of_word(b3, b2, b1, b0);
    let w = word_of(b3, b2, b1, b0) as int;
    let upper = b3 * 16 + b2 as int / 16;
    assert(w == upper * 0x10_0000 + (b2 as int % 16) * 0x1_0000 + b1 * 0x100 + b0);
    assert(w / 0x10_0000 == upper);
    assert(w / 0x1_0000 == b3 * 256 + b2);
    assert(w / 0x1000_0000 == b3 as int / 16);
}

/// The bytes of a received packet: a system message is its status, a channel message its
/// status with seven bits of each data byte, and one of MIDI 2.0 has the upper seven bits
/// of its value.
pub proof fn law_bytes_of_a_packet(
    word_count: u8,
    w0: u32,
    w1: u32,
    r: Vec<u8>,
    b3: u8,
    status: u8,
    b1: u8,
    b0: u8,
)
    requires
        call_ensures(ump_to_midi1, (word_count, w0, w1), r),
        w0 == b3 * 0x100_0000 + status * 0x1_0000 + b1 * 0x100 + b0,
    ensures
        0x10 <= b3 < 0x20 ==> r@ == seq![status],
        0x20 <= b3 < 0x30 && 0xC0 <= status < 0xE0 ==> r@ == seq![status, (b1 % 128) as u8],
        0x20 <= b3 < 0x30 && !(0xC0 <= status < 0xE0) ==> r@ == seq![
            status,
            (b1 % 128) as u8,
            (b0 % 128) as u8,
        ],
        0x40 <= b3 < 0x50 && word_count >= 2 ==> r@ == seq![
            status,
            (b1 % 128) as u8,
            (w1 / 0x200_0000) as u8,
        ],
        b3 < 0x10 || b3 >= 0x50 ==> r@.len() == 0,
        b3 >= 0x30 && word_count < 2 ==> r@.len() == 0,
{
    assert(w0 == word_of(b3, status, b1, b0));
    lemma_bytes_of_word(b3, status, b1, b0);
}

/// The bytes of a received SysEx packet: as many of its six as it says, with the byte that
/// starts the message in front of a first or only packet, and the one that ends it behind
/// a last or only one.
pub proof fn law_bytes_of_sysex(
    words: u8,
    w0: u32,
    w1: u32,
    r: Vec<u8>,
    place: u8,
    carried: u8,
    b: Seq<u8>,
)
    requires
        call_ensures(ump_to_midi1, (words, w0, w1), r),
        words >= 2,
        place < 16,
        carried <= 6,
        b.len() == 6,
        w0 == 0x3000_0000 + place * 0x10_0000 + carried * 0x1_0000 + b[4] * 0x100 + b[5],
        w1 == b[0] * 0x100_0000 + b[1] * 0x1_0000 + b[2] * 0x100 + b[3],
    ensures
        place == 0 ==> r@ == seq![0xF0u8] + b.take(carried as int) + seq![0xF7u8],
        place == 1 ==> r@ == seq![0xF0u8] + b.take(carried as int),
        place == 3 ==> r@ == b.take(carried as int) + seq![0xF7u8],
        place == 2 || place > 3 ==> r@ == b.take(carried as int),
{
    let status = (place * 16 + carried) as u8;
    assert(w0 == word_of(0x30, status, b[4], b[5]));
    assert(w1 == word_of(b[0], b[1], b[2], b[3]));
    lemma_bytes_of_word(0x30, status, b[4], b[5]);
    lemma_bytes_of_word(b[0], b[1], b[2], b[3]);
    let middle = Seq::new(carried as nat, |j: int| share_byte(w0, w1, j));
    assert(middle =~= b.take(carried as int));
    assert(status / 16 == place && status % 16 == carried);
    assert(packet_bytes(words, w0, w1) =~= (if place == 0 || place == 1 {
        seq![0xF0u8]
    } else {
        Seq::empty()
    }) + middle + (if place == 0 || place == 3 {
        seq![0xF7u8]
    } else {
        Seq::empty()
    }));
}

} // verus!
