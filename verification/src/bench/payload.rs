//! The measurement header carried in every benchmark payload.
//!
//! Publisher and subscriber run in one process, so one starting point serves both and end-to-end
//! latency needs no clock synchronisation. The header is the time since that point, plus enough
//! identity to attribute a message to its publisher.

use vstd::arithmetic::power;
use vstd::prelude::*;

verus! {

/// Bytes occupied by the header at the front of every benchmark payload.
pub const HEADER_LEN: usize = 16;

/// What the header says of its message.
#[derive(Clone, Copy, Debug, PartialEq, Eq, Structural)]
pub struct Header {
    /// Nanoseconds since the start of the run.
    pub elapsed_ns: u64,
    pub publisher: u32,
    pub seq: u32,
}

/// The last `len` big-endian digits of `n` in base 256.
pub open spec fn be_bytes(n: nat, len: nat) -> Seq<u8>
    decreases len,
{
    if len == 0 {
        Seq::empty()
    } else {
        be_bytes(n / 256, (len - 1) as nat).push((n % 256) as u8)
    }
}

/// The number that big-endian digits in base 256 stand for.
pub open spec fn be_value(bytes: Seq<u8>) -> nat
    decreases bytes.len(),
{
    if bytes.len() == 0 {
        0
    } else {
        be_value(bytes.drop_last()) * 256 + bytes.last() as nat
    }
}

/// The sixteen bytes of a header.
pub open spec fn header_bytes(header: Header) -> Seq<u8> {
    be_bytes(header.elapsed_ns as nat, 8) + be_bytes(header.publisher as nat, 4) + be_bytes(
        header.seq as nat,
        4,
    )
}

/// A payload of `size` bytes, or of the header's length if that is more: the header, then zeros.
pub open spec fn payload_bytes(size: nat, header: Header) -> Seq<u8> {
    header_bytes(header) + Seq::new(
        if size > HEADER_LEN {
            (size - HEADER_LEN) as nat
        } else {
            0
        },
        |i: int| 0u8,
    )
}

/// The header a payload starts with; too short a payload has none.
pub open spec fn header_of(payload: Seq<u8>) -> Option<Header> {
    if payload.len() < HEADER_LEN {
        None
    } else {
        Some(
            Header {
                elapsed_ns: be_value(payload.subrange(0, 8)) as u64,
                publisher: be_value(payload.subrange(8, 12)) as u32,
                seq: be_value(payload.subrange(12, 16)) as u32,
            },
        )
    }
}

proof fn lemma_be_bytes_len(n: nat, len: nat)
    ensures
        be_bytes(n, len).len() == len,
    decreases len,
{
    if len > 0 {
        lemma_be_bytes_len(n / 256, (len - 1) as nat);
    }
}

proof fn lemma_be_round_trip(n: nat, len: nat)
    requires
        n < power::pow(256, len),
    ensures
        be_value(be_bytes(n, len)) == n,
    decreases len,
{
    reveal(power::pow);
    lemma_be_bytes_len(n, len);
    if len > 0 {
        let shorter = (len - 1) as nat;
        assert(power::pow(256, len) == 256 * power::pow(256, shorter));
        assert(n / 256 < power::pow(256, shorter));
        lemma_be_round_trip(n / 256, shorter);
        lemma_be_bytes_len(n / 256, shorter);
        assert(be_bytes(n, len).drop_last() =~= be_bytes(n / 256, shorter));
    }
}

proof fn lemma_be_value_bound(bytes: Seq<u8>)
    ensures
        be_value(bytes) < power::pow(256, bytes.len()),
    decreases bytes.len(),
{
    reveal(power::pow);
    if bytes.len() > 0 {
        lemma_be_value_bound(bytes.drop_last());
        assert(power::pow(256, bytes.len()) == 256 * power::pow(256, (bytes.len() - 1) as nat));
    }
}

proof fn lemma_pow_256()
    ensures
        power::pow(256, 4) == 0x1_0000_0000,
        power::pow(256, 8) == 0x1_0000_0000_0000_0000,
{
    reveal(power::pow);
    reveal_with_fuel(power::pow, 9);
    assert(power::pow(256, 1) == 256);
    assert(power::pow(256, 2) == 0x1_0000);
    assert(power::pow(256, 3) == 0x100_0000);
    assert(power::pow(256, 4) == 0x1_0000_0000);
    assert(power::pow(256, 5) == 0x100_0000_0000);
    assert(power::pow(256, 6) == 0x1_0000_0000_0000);
    assert(power::pow(256, 7) == 0x100_0000_0000_0000);
}

/// Append the last `len` big-endian digits of `value`.
fn put_be(out: &mut Vec<u8>, value: u64, len: usize)
    ensures
        final(out)@ == old(out)@ + be_bytes(value as nat, len as nat),
    decreases len,
{
    if len > 0 {
        put_be(out, value / 256, len - 1);
        out.push((value % 256) as u8);
    }
    assert(out@ =~= old(out)@ + be_bytes(value as nat, len as nat));
}

/// Read big-endian digits; at most eight fit.
fn get_be(bytes: &[u8], from: usize, to: usize) -> (value: u64)
    requires
        from <= to <= bytes@.len(),
        to - from <= 8,
    ensures
        value == be_value(bytes@.subrange(from as int, to as int)),
{
    let mut value: u64 = 0;
    let mut i: usize = from;
    while i < to
        invariant
            from <= i <= to <= bytes@.len(),
            to - from <= 8,
            value == be_value(bytes@.subrange(from as int, i as int)),
        decreases to - i,
    {
        proof {
            let done = bytes@.subrange(from as int, i as int);
            lemma_be_value_bound(done);
            lemma_pow_256();
            power::lemma_pow_increases(256, done.len(), 7);
            reveal_with_fuel(power::pow, 2);
            assert(power::pow(256, 8) == 256 * power::pow(256, 7));
            assert(bytes@.subrange(from as int, i as int + 1).drop_last() =~= done);
        }
        value = value * 256 + bytes[i] as u64;
        i += 1;
    }
    value
}

/// Build a payload of `size` bytes carrying `header`, big-endian throughout.
///
/// A `size` below `HEADER_LEN` yields a `HEADER_LEN` payload rather than a truncated header;
/// `Config` decides whether such a run measures end-to-end latency at all.
pub fn build(size: usize, header: Header) -> (payload: Vec<u8>)
    ensures
        payload@ == payload_bytes(size as nat, header),
        payload@.len() == (if size > HEADER_LEN {
            size
        } else {
            HEADER_LEN
        }),
{
    let mut buf: Vec<u8> = Vec::new();
    put_be(&mut buf, header.elapsed_ns, 8);
    put_be(&mut buf, header.publisher as u64, 4);
    put_be(&mut buf, header.seq as u64, 4);
    proof {
        lemma_be_bytes_len(header.elapsed_ns as nat, 8);
        lemma_be_bytes_len(header.publisher as nat, 4);
        lemma_be_bytes_len(header.seq as nat, 4);
        assert(buf@ =~= header_bytes(header));
    }
    if size > HEADER_LEN {
        buf.resize(size, 0);
    }
    assert(buf@ =~= payload_bytes(size as nat, header));
    buf
}

/// Read the header back. `None` when the payload is too short to carry one.
pub fn decode(payload: &[u8]) -> (header: Option<Header>)
    ensures
        header == header_of(payload@),
{
    if payload.len() < HEADER_LEN {
        return None;
    }
    proof {
        lemma_pow_256();
        lemma_be_value_bound(payload@.subrange(0, 8));
        lemma_be_value_bound(payload@.subrange(8, 12));
        lemma_be_value_bound(payload@.subrange(12, 16));
    }
    let elapsed_ns: u64 = get_be(payload, 0, 8);
    let publisher: u32 = get_be(payload, 8, 12) as u32;
    let seq: u32 = get_be(payload, 12, 16) as u32;
    Some(Header { elapsed_ns, publisher, seq })
}

/// Reading a built payload gives its header back, whatever the size that was asked for.
pub proof fn header_survives(size: nat, header: Header)
    ensures
        header_of(payload_bytes(size, header)) == Some(header),
{
    let payload = payload_bytes(size, header);
    lemma_pow_256();
    lemma_be_bytes_len(header.elapsed_ns as nat, 8);
    lemma_be_bytes_len(header.publisher as nat, 4);
    lemma_be_bytes_len(header.seq as nat, 4);
    lemma_be_round_trip(header.elapsed_ns as nat, 8);
    lemma_be_round_trip(header.publisher as nat, 4);
    lemma_be_round_trip(header.seq as nat, 4);
    assert(payload.subrange(0, 8) =~= be_bytes(header.elapsed_ns as nat, 8));
    assert(payload.subrange(8, 12) =~= be_bytes(header.publisher as nat, 4));
    assert(payload.subrange(12, 16) =~= be_bytes(header.seq as nat, 4));
}

proof fn lemma_be_bytes_of_value(bytes: Seq<u8>)
    ensures
        be_bytes(be_value(bytes), bytes.len()) == bytes,
    decreases bytes.len(),
{
    if bytes.len() > 0 {
        let shorter = bytes.drop_last();
        lemma_be_bytes_of_value(shorter);
        assert(be_value(bytes) / 256 == be_value(shorter));
        assert(be_value(bytes) % 256 == bytes.last());
        assert(shorter.push(bytes.last()) =~= bytes);
    }
}

/// A header that was read is all its bytes say: writing it again gives the first sixteen bytes of
/// the payload back.
pub proof fn a_read_header_rebuilds_its_bytes(payload: Seq<u8>)
    requires
        payload.len() >= HEADER_LEN,
    ensures
        header_of(payload) matches Some(header) && header_bytes(header) == payload.take(
            HEADER_LEN as int,
        ),
{
    let elapsed = payload.subrange(0, 8);
    let publisher = payload.subrange(8, 12);
    let seq = payload.subrange(12, 16);
    lemma_pow_256();
    lemma_be_value_bound(elapsed);
    lemma_be_value_bound(publisher);
    lemma_be_value_bound(seq);
    lemma_be_bytes_of_value(elapsed);
    lemma_be_bytes_of_value(publisher);
    lemma_be_bytes_of_value(seq);
    assert(elapsed + publisher + seq =~= payload.take(HEADER_LEN as int));
}

/// Messages with different headers have different payloads.
pub proof fn headers_are_told_apart(size: nat, a: Header, b: Header)
    requires
        payload_bytes(size, a) == payload_bytes(size, b),
    ensures
        a == b,
{
    header_survives(size, a);
    header_survives(size, b);
}

/// A payload is as large as was asked for, or as its header where that is larger: the header's
/// sixteen bytes come first, and every byte behind them is zero.
pub proof fn a_payload_is_filled_up_with_zeros(size: nat, header: Header, i: int)
    ensures
        header_bytes(header).len() == 16,
        size >= 16 ==> payload_bytes(size, header).len() == size,
        size < 16 ==> payload_bytes(size, header).len() == 16,
        payload_bytes(size, header).take(16) == header_bytes(header),
        16 <= i < payload_bytes(size, header).len() ==> payload_bytes(size, header)[i] == 0,
{
    lemma_be_bytes_len(header.elapsed_ns as nat, 8);
    lemma_be_bytes_len(header.publisher as nat, 4);
    lemma_be_bytes_len(header.seq as nat, 4);
    assert(payload_bytes(size, header).take(16) =~= header_bytes(header));
}

/// A header is eight bytes of time, four of the publisher's number and four of the message's, each
/// number with its most significant byte first.
pub proof fn a_header_is_three_big_endian_numbers(header: Header)
    ensures
        ({
            let bytes = header_bytes(header);
            &&& bytes.len() == 16
            &&& be_value(bytes.subrange(0, 8)) == header.elapsed_ns
            &&& be_value(bytes.subrange(8, 12)) == header.publisher
            &&& be_value(bytes.subrange(12, 16)) == header.seq
        }),
{
    let bytes = header_bytes(header);
    lemma_pow_256();
    lemma_be_bytes_len(header.elapsed_ns as nat, 8);
    lemma_be_bytes_len(header.publisher as nat, 4);
    lemma_be_bytes_len(header.seq as nat, 4);
    lemma_be_round_trip(header.elapsed_ns as nat, 8);
    lemma_be_round_trip(header.publisher as nat, 4);
    lemma_be_round_trip(header.seq as nat, 4);
    assert(bytes.subrange(0, 8) =~= be_bytes(header.elapsed_ns as nat, 8));
    assert(bytes.subrange(8, 12) =~= be_bytes(header.publisher as nat, 4));
    assert(bytes.subrange(12, 16) =~= be_bytes(header.seq as nat, 4));
}

/// The first of several bytes counts most: with one more byte behind them they stand for 256 times
/// as much, and that byte.
pub proof fn the_first_byte_counts_most(bytes: Seq<u8>, byte: u8)
    ensures
        be_value(Seq::empty()) == 0,
        be_value(bytes.push(byte)) == be_value(bytes) * 256 + byte,
{
    assert(bytes.push(byte).drop_last() =~= bytes);
}

/// A payload of fewer than sixteen bytes has no header, and every other one has.
pub proof fn a_short_payload_has_no_header(payload: Seq<u8>)
    ensures
        header_of(payload) is Some <==> payload.len() >= 16,
{
}

} // verus!
