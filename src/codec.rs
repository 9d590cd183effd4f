//! Bit-level model of least-significant-bit embedding.
//!
//! Byte `k` of a payload occupies channel bytes `8k .. 8k + 8`; bit 7 of the
//! byte goes first. Only bit 0 of each channel byte is ever changed.
use vstd::prelude::*;

verus! {

/// Bit `j` of `byte`, counting from the most significant (`j == 0`).
pub open spec fn bit_of(byte: u8, j: int) -> u8 {
    (byte >> ((7 - j) as u8)) & 1u8
}

/// A payload of `payload_len` bytes and its one-byte delimiter fit in
/// `available_bits` channel bytes, one bit in each.
pub open spec fn has_capacity(payload_len: nat, available_bits: nat) -> bool {
    (payload_len + 1) * 8 <= available_bits
}

/// A payload of `payload_len` bytes fits in a carrier with exactly
/// `(payload_len + 1) * 8` channel bytes, and in none with one fewer.
pub proof fn lemma_capacity_boundary(payload_len: nat)
    ensures
        has_capacity(payload_len, (payload_len + 1) * 8),
        !has_capacity(payload_len, ((payload_len + 1) * 8 - 1) as nat),
{
}

/// `sample` with its least-significant bit replaced by `bit`.
pub open spec fn with_lsb(sample: u8, bit: u8) -> u8 {
    (sample & 0xfeu8) | bit
}

/// The least-significant bit of `sample`.
pub open spec fn lsb_of(sample: u8) -> u8 {
    sample & 1u8
}

/// `samples` after `data` has been written into their least-significant
/// bits, starting at the first channel byte.
pub open spec fn embedded(samples: Seq<u8>, data: Seq<u8>) -> Seq<u8> {
    Seq::new(
        samples.len(),
        |i: int|
            if i < data.len() * 8 {
                with_lsb(samples[i], bit_of(data[i / 8], i % 8))
            } else {
                samples[i]
            },
    )
}

/// A run of channel bytes after `byte` has been written into the
/// least-significant bits of its first eight.
pub open spec fn chunk_written(chunk: Seq<u8>, byte: u8) -> Seq<u8> {
    Seq::new(
        chunk.len(),
        |i: int|
            if i < 8 {
                with_lsb(chunk[i], bit_of(byte, i))
            } else {
                chunk[i]
            },
    )
}

/// The value of the first `j` least-significant bits from `start` on, read
/// most-significant first.
pub open spec fn partial_byte(samples: Seq<u8>, start: int, j: nat) -> u8
    decreases j,
{
    if j == 0 {
        0u8
    } else {
        (partial_byte(samples, start, (j - 1) as nat) << 1u8) | lsb_of(samples[start + j - 1])
    }
}

/// The byte carried by channel bytes `8k .. 8k + 8`.
pub open spec fn byte_at(samples: Seq<u8>, k: int) -> u8 {
    partial_byte(samples, 8 * k, 8)
}

/// The bytes carried from group `k` on, up to the first zero byte or the
/// last whole group of eight channel bytes.
pub open spec fn extracted_from(samples: Seq<u8>, k: nat) -> Seq<u8>
    decreases samples.len() - 8 * k,
{
    if 8 * k + 8 > samples.len() {
        Seq::empty()
    } else if byte_at(samples, k as int) == 0 {
        Seq::empty()
    } else {
        seq![byte_at(samples, k as int)] + extracted_from(samples, k + 1)
    }
}

/// The payload that a run of channel bytes carries.
pub open spec fn extracted(samples: Seq<u8>) -> Seq<u8> {
    extracted_from(samples, 0)
}

/// No byte of `data` is zero.
pub open spec fn no_zero_byte(data: Seq<u8>) -> bool {
    forall|i: int| 0 <= i < data.len() ==> #[trigger] data[i] != 0
}

proof fn lemma_lsb_of_with_lsb(sample: u8, bit: u8)
    by (bit_vector)
    requires
        bit <= 1,
    ensures
        lsb_of(with_lsb(sample, bit)) == bit,
{
}

proof fn lemma_bit_of_is_bit(byte: u8, s: u8)
    by (bit_vector)
    ensures
        (byte >> s) & 1u8 <= 1,
{
}

proof fn lemma_shift_step(byte: u8, s: u8)
    by (bit_vector)
    requires
        s < 8,
    ensures
        ((byte >> ((s + 1) as u8)) << 1u8) | ((byte >> s) & 1u8) == byte >> s,
{
}

proof fn lemma_shift_ends(byte: u8)
    by (bit_vector)
    ensures
        byte >> 8u8 == 0u8,
        byte >> 0u8 == byte,
{
}

/// After embedding, the first `j` bits of group `k` read back as the top
/// `j` bits of `data[k]`.
proof fn lemma_partial_byte_embedded(samples: Seq<u8>, data: Seq<u8>, k: int, j: nat)
    requires
        0 <= k < data.len(),
        data.len() * 8 <= samples.len(),
        j <= 8,
    ensures
        partial_byte(embedded(samples, data), 8 * k, j) == data[k] >> ((8 - j) as u8),
    decreases j,
{
    let e = embedded(samples, data);
    if j == 0 {
        lemma_shift_ends(data[k]);
    } else {
        lemma_partial_byte_embedded(samples, data, k, (j - 1) as nat);
        let i = 8 * k + j - 1;
        assert(i / 8 == k && i % 8 == j - 1) by (nonlinear_arith)
            requires
                i == 8 * k + j - 1,
                1 <= j <= 8,
        ;
        assert(i < data.len() * 8) by (nonlinear_arith)
            requires
                i == 8 * k + j - 1,
                1 <= j <= 8,
                k < data.len(),
        ;
        let s: u8 = (8 - j) as u8;
        lemma_bit_of_is_bit(data[k], s);
        lemma_lsb_of_with_lsb(samples[i], bit_of(data[k], j - 1));
        lemma_shift_step(data[k], s);
        assert(lsb_of(e[i]) == (data[k] >> s) & 1u8);
    }
}

/// After embedding, group `k` carries `data[k]`.
proof fn lemma_byte_at_embedded(samples: Seq<u8>, data: Seq<u8>, k: int)
    requires
        0 <= k < data.len(),
        data.len() * 8 <= samples.len(),
    ensures
        byte_at(embedded(samples, data), k) == data[k],
{
    lemma_partial_byte_embedded(samples, data, k, 8);
    lemma_shift_ends(data[k]);
}

proof fn lemma_extracted_suffix(samples: Seq<u8>, data: Seq<u8>, k: nat)
    requires
        (data.len() + 1) * 8 <= samples.len(),
        no_zero_byte(data),
        k <= data.len(),
    ensures
        extracted_from(embedded(samples, data.push(0u8)), k) == data.subrange(
            k as int,
            data.len() as int,
        ),
    decreases data.len() - k,
{
    let d = data.push(0u8);
    let e = embedded(samples, d);
    assert(8 * k + 8 <= samples.len()) by (nonlinear_arith)
        requires
            k <= data.len(),
            (data.len() + 1) * 8 <= samples.len(),
    ;
    lemma_byte_at_embedded(samples, d, k as int);
    if k == data.len() {
        assert(data.subrange(k as int, data.len() as int) =~= Seq::<u8>::empty());
    } else {
        assert(d[k as int] == data[k as int]);
        lemma_extracted_suffix(samples, data, k + 1);
        assert(data.subrange(k as int, data.len() as int) =~= seq![data[k as int]]
            + data.subrange((k + 1) as int, data.len() as int));
    }
}

/// Embedding a payload with its zero delimiter and extracting it again
/// gives the payload back, for every payload without a zero byte whose
/// bits and delimiter fit in the carrier's channel bytes.
pub proof fn lemma_round_trip(samples: Seq<u8>, data: Seq<u8>)
    requires
        (data.len() + 1) * 8 <= samples.len(),
        no_zero_byte(data),
    ensures
        extracted(embedded(samples, data.push(0u8))) == data,
{
    lemma_extracted_suffix(samples, data, 0);
    assert(data.subrange(0, data.len() as int) =~= data);
}

/// Writes `byte` into the least-significant bits of the first eight
/// channel bytes of `chunk` (of all of them, if there are fewer).
pub fn write_byte(chunk: &mut [u8], byte: u8)
    ensures
        final(chunk)@ == chunk_written(old(chunk)@, byte),
{
    let n: usize = if chunk.len() < 8 {
        chunk.len()
    } else {
        8
    };
    let mut j: usize = 0;
    while j < n
        invariant
            n <= 8,
            n <= chunk@.len(),
            n == chunk@.len() || n == 8,
            j <= n,
            chunk@.len() == old(chunk)@.len(),
            forall|i: int|
                0 <= i < chunk@.len() ==> #[trigger] chunk@[i] == if i < j {
                    with_lsb(old(chunk)@[i], bit_of(byte, i))
                } else {
                    old(chunk)@[i]
                },
        decreases n - j,
    {
        let bit: u8 = (byte >> ((7 - j) as u8)) & 1;
        let sample: u8 = chunk[j];
        chunk[j] = (sample & 0xfe) | bit;
        j = j + 1;
    }
    assert(chunk@ =~= chunk_written(old(chunk)@, byte));
}

/// Reads the payload that `samples` carry: whole groups of eight
/// least-significant bits, most-significant first, up to the first zero byte.
pub fn extract_bytes(samples: &[u8]) -> (r: Vec<u8>)
    ensures
        r@ == extracted(samples@),
{
    let len: usize = samples.len();
    let groups: usize = len / 8;
    let mut bytes: Vec<u8> = Vec::new();
    let mut k: usize = 0;
    while k < groups
        invariant
            len == samples@.len(),
            groups == len / 8,
            k <= groups,
            bytes@ + extracted_from(samples@, k as nat) == extracted(samples@),
        decreases groups - k,
    {
        assert(8 * k + 8 <= samples@.len()) by (nonlinear_arith)
            requires
                k < groups,
                groups == len / 8,
                len == samples@.len(),
        ;
        let start: usize = 8 * k;
        let mut acc: u8 = 0;
        let mut j: usize = 0;
        while j < 8
            invariant
                start == 8 * k,
                start + 8 <= samples@.len(),
                j <= 8,
                acc == partial_byte(samples@, start as int, j as nat),
            decreases 8 - j,
        {
            acc = (acc << 1u8) | (samples[start + j] & 1);
            j = j + 1;
        }
        if acc == 0 {
            assert(bytes@ + Seq::<u8>::empty() =~= bytes@);
            return bytes;
        }
        let ghost before = bytes@;
        bytes.push(acc);
        assert(bytes@ + extracted_from(samples@, (k + 1) as nat) =~= before + extracted_from(
            samples@,
            k as nat,
        ));
        k = k + 1;
    }
    assert(bytes@ + Seq::<u8>::empty() =~= bytes@);
    bytes
}

} // verus!
