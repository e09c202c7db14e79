//! ICMP Echo-Request encoding.

use vstd::prelude::*;

use crate::checksum::{
    checksum, internet_checksum, lemma_ones_complement_add_complement, ones_complement,
    sum_words, word_at, word_count,
};

verus! {

/// ICMP message type of an Echo Request.
pub const ECHO_REQUEST: u8 = 8;

/// The 8-byte Echo-Request header: type, code, checksum, identifier and sequence,
/// the 16-bit fields big-endian.
pub open spec fn echo_request_header(ident: u16, sequence: u16, check: u16) -> Seq<u8> {
    seq![
        ECHO_REQUEST,
        0u8,
        (check / 256) as u8,
        (check % 256) as u8,
        (ident / 256) as u8,
        (ident % 256) as u8,
        (sequence / 256) as u8,
        (sequence % 256) as u8,
    ]
}

/// The Echo Request for `(ident, sequence, payload)`: the header followed by the
/// payload, with the checksum computed over the message whose checksum field is
/// zero.
pub open spec fn echo_request(ident: u16, sequence: u16, payload: Seq<u8>) -> Seq<u8> {
    let unsummed = echo_request_header(ident, sequence, 0) + payload;
    echo_request_header(ident, sequence, internet_checksum(unsummed)) + payload
}

/// One outstanding probe: an Echo Request identified by `(ident, sequence)`.
pub struct Packet {
    pub ident: u16,
    pub sequence: u16,
    pub payload: Vec<u8>,
}

impl Packet {
    /// A request with an empty payload.
    pub fn new(ident: u16, sequence: u16) -> (r: Self)
        ensures
            r.ident == ident,
            r.sequence == sequence,
            r.payload@.len() == 0,
    {
        Self { ident, sequence, payload: Vec::new() }
    }

    /// The bytes of the Echo Request, ready to send.
    pub fn to_vec(&self) -> (r: Vec<u8>)
        ensures
            r@ == echo_request(self.ident, self.sequence, self.payload@),
    {
        let ident = self.ident;
        let sequence = self.sequence;
        let mut result: Vec<u8> = Vec::new();
        result.push(ECHO_REQUEST);
        result.push(0);
        result.push(0);
        result.push(0);
        result.push(((ident & 0xFF00) >> 8) as u8);
        result.push((ident & 0x00FF) as u8);
        result.push(((sequence & 0xFF00) >> 8) as u8);
        result.push((sequence & 0x00FF) as u8);
        assert(((ident & 0xFF00) >> 8) == ident / 256 && (ident & 0x00FF) == ident % 256)
            by (bit_vector);
        assert(((sequence & 0xFF00) >> 8) == sequence / 256 && (sequence & 0x00FF) == sequence
            % 256) by (bit_vector);
        assert(result@ =~= echo_request_header(ident, sequence, 0));
        let mut i: usize = 0;
        while i < self.payload.len()
            invariant
                i <= self.payload@.len(),
                result@ =~= echo_request_header(ident, sequence, 0) + self.payload@.subrange(
                    0,
                    i as int,
                ),
            decreases self.payload@.len() - i,
        {
            result.push(self.payload[i]);
            i = i + 1;
        }
        assert(self.payload@.subrange(0, i as int) =~= self.payload@);
        let check = checksum(result.as_slice());
        result.set(2, ((check & 0xFF00) >> 8) as u8);
        result.set(3, (check & 0x00FF) as u8);
        assert(((check & 0xFF00) >> 8) == check / 256 && (check & 0x00FF) == check % 256)
            by (bit_vector);
        assert(result@ =~= echo_request(ident, sequence, self.payload@));
        result
    }
}

impl vstd::std_specs::convert::FromSpecImpl<Packet> for Vec<u8> {
    open spec fn obeys_from_spec() -> bool {
        false
    }

    open spec fn from_spec(v: Packet) -> Vec<u8> {
        choose|r: Vec<u8>| #[trigger] r@ == echo_request(v.ident, v.sequence, v.payload@)
    }
}

impl From<Packet> for Vec<u8> {
    /// The bytes of the Echo Request.
    fn from(packet: Packet) -> (r: Vec<u8>)
        ensures
            r@ == echo_request(packet.ident, packet.sequence, packet.payload@),
    {
        packet.to_vec()
    }
}

/// Sums of two buffers that differ only in word 1 differ by exactly that word.
proof fn lemma_sum_words_word_one(a: Seq<u8>, b: Seq<u8>, n: nat)
    requires
        n >= 2,
        forall|k: int| 0 <= k < n && k != 1 ==> word_at(a, k) == word_at(b, k),
    ensures
        sum_words(b, n) == sum_words(a, n) - word_at(a, 1) + word_at(b, 1),
    decreases n,
{
    if n > 2 {
        lemma_sum_words_word_one(a, b, (n - 1) as nat);
    } else {
        assert(sum_words(a, 0) == 0 && sum_words(b, 0) == 0);
        assert(sum_words(a, 1) == word_at(a, 0) && sum_words(b, 1) == word_at(b, 0));
    }
}

/// An encoded Echo Request validates: the one's-complement sum of its words is
/// all ones, so recomputing its checksum over the whole message gives zero.
pub proof fn lemma_echo_request_validates(ident: u16, sequence: u16, payload: Seq<u8>)
    ensures
        ({
            let msg = echo_request(ident, sequence, payload);
            &&& ones_complement(sum_words(msg, word_count(msg))) == 0xFFFF
            &&& internet_checksum(msg) == 0
        }),
{
    let unsummed = echo_request_header(ident, sequence, 0) + payload;
    let check = internet_checksum(unsummed);
    let msg = echo_request(ident, sequence, payload);
    let n = word_count(msg);
    assert(msg.len() == unsummed.len());
    assert(word_count(unsummed) == n);
    assert forall|k: int| 0 <= k < n && k != 1 implies word_at(unsummed, k) == word_at(msg, k) by {
        assert(unsummed[2 * k] == msg[2 * k]);
        if 2 * k + 1 < msg.len() {
            assert(unsummed[2 * k + 1] == msg[2 * k + 1]);
        }
    }
    assert(word_at(unsummed, 1) == 0);
    assert(word_at(msg, 1) == check);
    lemma_sum_words_word_one(unsummed, msg, n);
    lemma_ones_complement_add_complement(sum_words(unsummed, n));
}

} // verus!
