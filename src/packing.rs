//! Packing of 9-bit panel words into the bytes of an 8-bit serial bus.
//!
//! Every logical byte travels as one control bit (0 for a command, 1 for
//! data) followed by its eight bits, most significant first. The words of a
//! block of at most eight bytes are laid end to end and cut into bytes, most
//! significant bit first, the unused low bits of the last byte being zero.
use vstd::prelude::*;
use vstd::arithmetic::div_mod::lemma_fundamental_div_mod_converse;

verus! {

/// The most bytes that one block packs.
pub const BLOCK_LEN: usize = 8;

/// Bit `k` of the word stream of `data` under control bit `c`: each byte
/// gives `c`, then its own bits from the most significant one; past the last
/// word the stream reads 0.
pub open spec fn stream_bit(data: Seq<u8>, c: u8, k: int) -> u8 {
    if k < 0 || k >= 9 * data.len() {
        0
    } else if k % 9 == 0 {
        c
    } else {
        (data[k / 9] >> ((8 - k % 9) as u8)) & 1
    }
}

/// The byte whose bits, from the most significant one, are `b0` to `b7`.
pub open spec fn msb_byte(b0: u8, b1: u8, b2: u8, b3: u8, b4: u8, b5: u8, b6: u8, b7: u8) -> u8 {
    (b0 << 7u8) | (b1 << 6u8) | (b2 << 5u8) | (b3 << 4u8) | (b4 << 3u8) | (b5 << 2u8) | (b6
        << 1u8) | b7
}

/// Output byte `m`: stream bits `8m` to `8m + 7`.
#[verifier::opaque]
pub open spec fn packed_byte(data: Seq<u8>, c: u8, m: int) -> u8 {
    msb_byte(
        stream_bit(data, c, 8 * m),
        stream_bit(data, c, 8 * m + 1),
        stream_bit(data, c, 8 * m + 2),
        stream_bit(data, c, 8 * m + 3),
        stream_bit(data, c, 8 * m + 4),
        stream_bit(data, c, 8 * m + 5),
        stream_bit(data, c, 8 * m + 6),
        stream_bit(data, c, 8 * m + 7),
    )
}

/// Number of bytes that hold `n` words of 9 bits: the ceiling of `9n / 8`.
pub open spec fn packed_len(n: nat) -> nat {
    (9 * n + 7) / 8
}

/// The bytes that carry the words of `data` under control bit `c`.
pub open spec fn packed(data: Seq<u8>, c: u8) -> Seq<u8> {
    Seq::new(packed_len(data.len()), |m: int| packed_byte(data, c, m))
}

/// Bit `k` of `p`, reading each byte from its most significant bit.
pub open spec fn bit_at(p: Seq<u8>, k: int) -> u8 {
    (p[k / 8] >> ((7 - k % 8) as u8)) & 1
}

/// The control bit of word `i`, read back from packed bytes.
pub open spec fn decoded_control(p: Seq<u8>, i: int) -> u8 {
    bit_at(p, 9 * i)
}

/// The data byte of word `i`, read back from packed bytes.
#[verifier::opaque]
pub open spec fn decoded_byte(p: Seq<u8>, i: int) -> u8 {
    msb_byte(
        bit_at(p, 9 * i + 1),
        bit_at(p, 9 * i + 2),
        bit_at(p, 9 * i + 3),
        bit_at(p, 9 * i + 4),
        bit_at(p, 9 * i + 5),
        bit_at(p, 9 * i + 6),
        bit_at(p, 9 * i + 7),
        bit_at(p, 9 * i + 8),
    )
}

/// Byte `m` of a packed block, from the byte before it (`prev`), the byte
/// whose control bit it holds (`cur`) and that control bit (`c`).
spec fn window_byte(prev: u8, cur: u8, c: u8, m: int) -> u8 {
    if m == 0 {
        (c << 7u8) | (cur >> 1u8)
    } else if m < 7 {
        (c << ((7 - m) as u8)) | (cur >> ((m + 1) as u8)) | (prev << ((8 - m) as u8))
    } else if m == 7 {
        (prev << 1u8) | c
    } else {
        prev
    }
}

proof fn lemma_window_byte(d: Seq<u8>, c: u8, n: int, m: int, prev: u8, cur: u8)
    requires
        1 <= n <= 8,
        d.len() == n,
        0 <= m <= n,
        c <= 1,
        m >= 1 ==> prev == d[m - 1],
        m < n ==> cur == d[m],
    ensures
        packed_byte(d, c, m) == (if m < n {
            window_byte(prev, cur, c, m)
        } else {
            window_byte(prev, 0, 0, m)
        }),
{
    reveal(packed_byte);
    if m == 0 {
        assert(c <= 1 ==> (
            (c << 7u8) |
            (((cur >> 7u8) & 1u8) << 6u8) |
            (((cur >> 6u8) & 1u8) << 5u8) |
            (((cur >> 5u8) & 1u8) << 4u8) |
            (((cur >> 4u8) & 1u8) << 3u8) |
            (((cur >> 3u8) & 1u8) << 2u8) |
            (((cur >> 2u8) & 1u8) << 1u8) |
            ((cur >> 1u8) & 1u8)
        ) == ((c << 7u8) | (cur >> 1u8))) by (bit_vector);
    } else if m == 1 {
        if m < n {
            assert(c <= 1 ==> (
                (((prev >> 0u8) & 1u8) << 7u8) |
                (c << 6u8) |
                (((cur >> 7u8) & 1u8) << 5u8) |
                (((cur >> 6u8) & 1u8) << 4u8) |
                (((cur >> 5u8) & 1u8) << 3u8) |
                (((cur >> 4u8) & 1u8) << 2u8) |
                (((cur >> 3u8) & 1u8) << 1u8) |
                ((cur >> 2u8) & 1u8)
            ) == ((c << 6u8) | (cur >> 2u8) | (prev << 7u8))) by (bit_vector);
        } else {
            assert((
                (((prev >> 0u8) & 1u8) << 7u8) |
                (0u8 << 6u8) |
                (0u8 << 5u8) |
                (0u8 << 4u8) |
                (0u8 << 3u8) |
                (0u8 << 2u8) |
                (0u8 << 1u8) |
                0u8
            ) == ((0u8 << 6u8) | (0u8 >> 2u8) | (prev << 7u8))) by (bit_vector);
        }
    } else if m == 2 {
        if m < n {
            assert(c <= 1 ==> (
                (((prev >> 1u8) & 1u8) << 7u8) |
                (((prev >> 0u8) & 1u8) << 6u8) |
                (c << 5u8) |
                (((cur >> 7u8) & 1u8) << 4u8) |
                (((cur >> 6u8) & 1u8) << 3u8) |
                (((cur >> 5u8) & 1u8) << 2u8) |
                (((cur >> 4u8) & 1u8) << 1u8) |
                ((cur >> 3u8) & 1u8)
            ) == ((c << 5u8) | (cur >> 3u8) | (prev << 6u8))) by (bit_vector);
        } else {
            assert((
                (((prev >> 1u8) & 1u8) << 7u8) |
                (((prev >> 0u8) & 1u8) << 6u8) |
                (0u8 << 5u8) |
                (0u8 << 4u8) |
                (0u8 << 3u8) |
                (0u8 << 2u8) |
                (0u8 << 1u8) |
                0u8
            ) == ((0u8 << 5u8) | (0u8 >> 3u8) | (prev << 6u8))) by (bit_vector);
        }
    } else if m == 3 {
        if m < n {
            assert(c <= 1 ==> (
                (((prev >> 2u8) & 1u8) << 7u8) |
                (((prev >> 1u8) & 1u8) << 6u8) |
                (((prev >> 0u8) & 1u8) << 5u8) |
                (c << 4u8) |
                (((cur >> 7u8) & 1u8) << 3u8) |
                (((cur >> 6u8) & 1u8) << 2u8) |
                (((cur >> 5u8) & 1u8) << 1u8) |
                ((cur >> 4u8) & 1u8)
            ) == ((c << 4u8) | (cur >> 4u8) | (prev << 5u8))) by (bit_vector);
        } else {
            assert((
                (((prev >> 2u8) & 1u8) << 7u8) |
                (((prev >> 1u8) & 1u8) << 6u8) |
                (((prev >> 0u8) & 1u8) << 5u8) |
                (0u8 << 4u8) |
                (0u8 << 3u8) |
                (0u8 << 2u8) |
                (0u8 << 1u8) |
                0u8
            ) == ((0u8 << 4u8) | (0u8 >> 4u8) | (prev << 5u8))) by (bit_vector);
        }
    } else if m == 4 {
        if m < n {
            assert(c <= 1 ==> (
                (((prev >> 3u8) & 1u8) << 7u8) |
                (((prev >> 2u8) & 1u8) << 6u8) |
                (((prev >> 1u8) & 1u8) << 5u8) |
                (((prev >> 0u8) & 1u8) << 4u8) |
                (c << 3u8) |
                (((cur >> 7u8) & 1u8) << 2u8) |
                (((cur >> 6u8) & 1u8) << 1u8) |
                ((cur >> 5u8) & 1u8)
            ) == ((c << 3u8) | (cur >> 5u8) | (prev << 4u8))) by (bit_vector);
        } else {
            assert((
                (((prev >> 3u8) & 1u8) << 7u8) |
                (((prev >> 2u8) & 1u8) << 6u8) |
                (((prev >> 1u8) & 1u8) << 5u8) |
                (((prev >> 0u8) & 1u8) << 4u8) |
                (0u8 << 3u8) |
                (0u8 << 2u8) |
                (0u8 << 1u8) |
                0u8
            ) == ((0u8 << 3u8) | (0u8 >> 5u8) | (prev << 4u8))) by (bit_vector);
        }
    } else if m == 5 {
        if m < n {
            assert(c <= 1 ==> (
                (((prev >> 4u8) & 1u8) << 7u8) |
                (((prev >> 3u8) & 1u8) << 6u8) |
                (((prev >> 2u8) & 1u8) << 5u8) |
                (((prev >> 1u8) & 1u8) << 4u8) |
                (((prev >> 0u8) & 1u8) << 3u8) |
                (c << 2u8) |
                (((cur >> 7u8) & 1u8) << 1u8) |
                ((cur >> 6u8) & 1u8)
            ) == ((c << 2u8) | (cur >> 6u8) | (prev << 3u8))) by (bit_vector);
        } else {
            assert((
                (((prev >> 4u8) & 1u8) << 7u8) |
                (((prev >> 3u8) & 1u8) << 6u8) |
                (((prev >> 2u8) & 1u8) << 5u8) |
                (((prev >> 1u8) & 1u8) << 4u8) |
                (((prev >> 0u8) & 1u8) << 3u8) |
                (0u8 << 2u8) |
                (0u8 << 1u8) |
                0u8
            ) == ((0u8 << 2u8) | (0u8 >> 6u8) | (prev << 3u8))) by (bit_vector);
        }
    } else if m == 6 {
        if m < n {
            assert(c <= 1 ==> (
                (((prev >> 5u8) & 1u8) << 7u8) |
                (((prev >> 4u8) & 1u8) << 6u8) |
                (((prev >> 3u8) & 1u8) << 5u8) |
                (((prev >> 2u8) & 1u8) << 4u8) |
                (((prev >> 1u8) & 1u8) << 3u8) |
                (((prev >> 0u8) & 1u8) << 2u8) |
                (c << 1u8) |
                ((cur >> 7u8) & 1u8)
            ) == ((c << 1u8) | (cur >> 7u8) | (prev << 2u8))) by (bit_vector);
        } else {
            assert((
                (((prev >> 5u8) & 1u8) << 7u8) |
                (((prev >> 4u8) & 1u8) << 6u8) |
                (((prev >> 3u8) & 1u8) << 5u8) |
                (((prev >> 2u8) & 1u8) << 4u8) |
                (((prev >> 1u8) & 1u8) << 3u8) |
                (((prev >> 0u8) & 1u8) << 2u8) |
                (0u8 << 1u8) |
                0u8
            ) == ((0u8 << 1u8) | (0u8 >> 7u8) | (prev << 2u8))) by (bit_vector);
        }
    } else if m == 7 {
        if m < n {
            assert(c <= 1 ==> (
                (((prev >> 6u8) & 1u8) << 7u8) |
                (((prev >> 5u8) & 1u8) << 6u8) |
                (((prev >> 4u8) & 1u8) << 5u8) |
                (((prev >> 3u8) & 1u8) << 4u8) |
                (((prev >> 2u8) & 1u8) << 3u8) |
                (((prev >> 1u8) & 1u8) << 2u8) |
                (((prev >> 0u8) & 1u8) << 1u8) |
                c
            ) == ((prev << 1u8) | c)) by (bit_vector);
        } else {
            assert((
                (((prev >> 6u8) & 1u8) << 7u8) |
                (((prev >> 5u8) & 1u8) << 6u8) |
                (((prev >> 4u8) & 1u8) << 5u8) |
                (((prev >> 3u8) & 1u8) << 4u8) |
                (((prev >> 2u8) & 1u8) << 3u8) |
                (((prev >> 1u8) & 1u8) << 2u8) |
                (((prev >> 0u8) & 1u8) << 1u8) |
                0u8
            ) == ((prev << 1u8) | 0u8)) by (bit_vector);
        }
    } else if m == 8 {
        assert((
            (((prev >> 7u8) & 1u8) << 7u8) |
            (((prev >> 6u8) & 1u8) << 6u8) |
            (((prev >> 5u8) & 1u8) << 5u8) |
            (((prev >> 4u8) & 1u8) << 4u8) |
            (((prev >> 3u8) & 1u8) << 3u8) |
            (((prev >> 2u8) & 1u8) << 2u8) |
            (((prev >> 1u8) & 1u8) << 1u8) |
            ((prev >> 0u8) & 1u8)
        ) == prev) by (bit_vector);
    }
}

/// A block of one to eight bytes packs into one byte more than it holds.
pub proof fn lemma_packed_len(n: nat)
    requires
        1 <= n <= 8,
    ensures
        packed_len(n) == n + 1,
{
}

fn pack_byte(data: &[u8], n: usize, m: usize, bit: u8) -> (r: u8)
    requires
        1 <= n <= 8,
        n <= data@.len(),
        m <= n,
        bit <= 1,
    ensures
        r == packed_byte(data@.take(n as int), bit, m as int),
{
    let prev: u8 = if m >= 1 {
        data[m - 1]
    } else {
        0
    };
    let cur: u8 = if m < n {
        data[m]
    } else {
        0
    };
    let c: u8 = if m < n {
        bit
    } else {
        0
    };
    let r: u8 = if m == 0 {
        (c << 7u8) | (cur >> 1u8)
    } else if m < 7 {
        let s: u8 = m as u8;
        (c << (7 - s)) | (cur >> (s + 1)) | (prev << (8 - s))
    } else if m == 7 {
        (prev << 1u8) | c
    } else {
        prev
    };
    proof {
        lemma_window_byte(data@.take(n as int), bit, n as int, m as int, prev, cur);
    }
    r
}

/// Packs the first (at most eight) bytes of `data` under control bit `bit`
/// into `output` and returns how many bytes of `output` it wrote; the bytes
/// of `output` after those are left as they were.
pub fn encode_control_bit(data: &[u8], output: &mut [u8; 9], bit: u8) -> (r: usize)
    requires
        bit <= 1,
    ensures
        r as nat == packed_len(
            if data@.len() < 8 {
                data@.len()
            } else {
                8
            },
        ),
        final(output)@.take(r as int) == packed(
            data@.take(
                if data@.len() < 8 {
                    data@.len() as int
                } else {
                    8
                },
            ),
            bit,
        ),
        final(output)@.skip(r as int) == old(output)@.skip(r as int),
{
    let n: usize = if data.len() < BLOCK_LEN {
        data.len()
    } else {
        BLOCK_LEN
    };
    if n == 0 {
        assert(output@.take(0) =~= packed(data@.take(0), bit));
        return 0;
    }
    let ghost block = data@.take(n as int);
    let mut m: usize = 0;
    while m <= n
        invariant
            1 <= n <= 8,
            n <= data@.len(),
            m <= n + 1,
            bit <= 1,
            block == data@.take(n as int),
            output@.len() == 9,
            forall|j: int| 0 <= j < m ==> output@[j] == packed_byte(block, bit, j),
            forall|j: int| m <= j < 9 ==> output@[j] == old(output)@[j],
        decreases n + 1 - m,
    {
        let byte = pack_byte(data, n, m, bit);
        output[m] = byte;
        m = m + 1;
    }
    proof {
        lemma_packed_len(n as nat);
        assert(output@.take(n + 1) =~= packed(block, bit));
        assert(output@.skip(n + 1) =~= old(output)@.skip(n + 1));
    }
    n + 1
}

proof fn lemma_msb_byte_bits(b0: u8, b1: u8, b2: u8, b3: u8, b4: u8, b5: u8, b6: u8, b7: u8)
    requires
        b0 <= 1 && b1 <= 1 && b2 <= 1 && b3 <= 1 && b4 <= 1 && b5 <= 1 && b6 <= 1 && b7 <= 1,
    ensures
        ({
            let x = msb_byte(b0, b1, b2, b3, b4, b5, b6, b7);
            &&& (x >> 7u8) & 1 == b0
            &&& (x >> 6u8) & 1 == b1
            &&& (x >> 5u8) & 1 == b2
            &&& (x >> 4u8) & 1 == b3
            &&& (x >> 3u8) & 1 == b4
            &&& (x >> 2u8) & 1 == b5
            &&& (x >> 1u8) & 1 == b6
            &&& (x >> 0u8) & 1 == b7
        }),
{
    assert(b0 <= 1 && b1 <= 1 && b2 <= 1 && b3 <= 1 && b4 <= 1 && b5 <= 1 && b6 <= 1 && b7 <= 1
        ==> ({
        let x = (b0 << 7u8) | (b1 << 6u8) | (b2 << 5u8) | (b3 << 4u8) | (b4 << 3u8) | (b5 << 2u8)
            | (b6 << 1u8) | b7;
        &&& (x >> 7u8) & 1 == b0
        &&& (x >> 6u8) & 1 == b1
        &&& (x >> 5u8) & 1 == b2
        &&& (x >> 4u8) & 1 == b3
        &&& (x >> 3u8) & 1 == b4
        &&& (x >> 2u8) & 1 == b5
        &&& (x >> 1u8) & 1 == b6
        &&& (x >> 0u8) & 1 == b7
    })) by (bit_vector);
}

proof fn lemma_byte_from_bits(x: u8)
    ensures
        msb_byte(
            (x >> 7u8) & 1,
            (x >> 6u8) & 1,
            (x >> 5u8) & 1,
            (x >> 4u8) & 1,
            (x >> 3u8) & 1,
            (x >> 2u8) & 1,
            (x >> 1u8) & 1,
            (x >> 0u8) & 1,
        ) == x,
{
    assert((
        (((x >> 7u8) & 1u8) << 7u8) |
        (((x >> 6u8) & 1u8) << 6u8) |
        (((x >> 5u8) & 1u8) << 5u8) |
        (((x >> 4u8) & 1u8) << 4u8) |
        (((x >> 3u8) & 1u8) << 3u8) |
        (((x >> 2u8) & 1u8) << 2u8) |
        (((x >> 1u8) & 1u8) << 1u8) |
        ((x >> 0u8) & 1u8)
    ) == x) by (bit_vector);
}

proof fn lemma_stream_bit_is_bit(data: Seq<u8>, c: u8, k: int)
    requires
        c <= 1,
    ensures
        stream_bit(data, c, k) <= 1,
{
    if 0 <= k < 9 * data.len() && k % 9 != 0 {
        let x = data[k / 9];
        let s = (8 - k % 9) as u8;
        assert((x >> s) & 1 <= 1) by (bit_vector);
    }
}

/// Reading the packed bytes bit by bit gives back the word stream.
proof fn lemma_bit_of_packed(data: Seq<u8>, c: u8, k: int)
    requires
        c <= 1,
        0 <= k < 8 * packed_len(data.len()),
    ensures
        bit_at(packed(data, c), k) == stream_bit(data, c, k),
{
    reveal(packed_byte);
    let m = k / 8;
    let t = k % 8;
    assert(k == 8 * m + t);
    assert(0 <= m < packed_len(data.len()));
    lemma_stream_bit_is_bit(data, c, 8 * m);
    lemma_stream_bit_is_bit(data, c, 8 * m + 1);
    lemma_stream_bit_is_bit(data, c, 8 * m + 2);
    lemma_stream_bit_is_bit(data, c, 8 * m + 3);
    lemma_stream_bit_is_bit(data, c, 8 * m + 4);
    lemma_stream_bit_is_bit(data, c, 8 * m + 5);
    lemma_stream_bit_is_bit(data, c, 8 * m + 6);
    lemma_stream_bit_is_bit(data, c, 8 * m + 7);
    lemma_msb_byte_bits(
        stream_bit(data, c, 8 * m),
        stream_bit(data, c, 8 * m + 1),
        stream_bit(data, c, 8 * m + 2),
        stream_bit(data, c, 8 * m + 3),
        stream_bit(data, c, 8 * m + 4),
        stream_bit(data, c, 8 * m + 5),
        stream_bit(data, c, 8 * m + 6),
        stream_bit(data, c, 8 * m + 7),
    );
}

proof fn lemma_word_round_trip(data: Seq<u8>, c: u8, i: int)
    requires
        1 <= data.len() <= 8,
        c <= 1,
        0 <= i < data.len(),
    ensures
        decoded_control(packed(data, c), i) == c,
        decoded_byte(packed(data, c), i) == data[i],
{
    let p = packed(data, c);
    let x = data[i];
    reveal(decoded_byte);
    lemma_packed_len(data.len());
    lemma_fundamental_div_mod_converse(9 * i + 0, 9, i, 0);
    lemma_bit_of_packed(data, c, 9 * i + 0);
    assert(bit_at(p, 9 * i) == c);
    lemma_fundamental_div_mod_converse(9 * i + 1, 9, i, 1);
    lemma_bit_of_packed(data, c, 9 * i + 1);
    assert(bit_at(p, 9 * i + 1) == (x >> 7u8) & 1);
    lemma_fundamental_div_mod_converse(9 * i + 2, 9, i, 2);
    lemma_bit_of_packed(data, c, 9 * i + 2);
    assert(bit_at(p, 9 * i + 2) == (x >> 6u8) & 1);
    lemma_fundamental_div_mod_converse(9 * i + 3, 9, i, 3);
    lemma_bit_of_packed(data, c, 9 * i + 3);
    assert(bit_at(p, 9 * i + 3) == (x >> 5u8) & 1);
    lemma_fundamental_div_mod_converse(9 * i + 4, 9, i, 4);
    lemma_bit_of_packed(data, c, 9 * i + 4);
    assert(bit_at(p, 9 * i + 4) == (x >> 4u8) & 1);
    lemma_fundamental_div_mod_converse(9 * i + 5, 9, i, 5);
    lemma_bit_of_packed(data, c, 9 * i + 5);
    assert(bit_at(p, 9 * i + 5) == (x >> 3u8) & 1);
    lemma_fundamental_div_mod_converse(9 * i + 6, 9, i, 6);
    lemma_bit_of_packed(data, c, 9 * i + 6);
    assert(bit_at(p, 9 * i + 6) == (x >> 2u8) & 1);
    lemma_fundamental_div_mod_converse(9 * i + 7, 9, i, 7);
    lemma_bit_of_packed(data, c, 9 * i + 7);
    assert(bit_at(p, 9 * i + 7) == (x >> 1u8) & 1);
    lemma_fundamental_div_mod_converse(9 * i + 8, 9, i, 8);
    lemma_bit_of_packed(data, c, 9 * i + 8);
    assert(bit_at(p, 9 * i + 8) == (x >> 0u8) & 1);
    lemma_byte_from_bits(x);
}

proof fn lemma_padding_bit(data: Seq<u8>, c: u8, k: int)
    requires
        1 <= data.len() <= 8,
        c <= 1,
        9 * data.len() <= k < 8 * packed(data, c).len(),
    ensures
        bit_at(packed(data, c), k) == 0,
{
    lemma_bit_of_packed(data, c, k);
}

/// Unpacking a packed block gives back its control bit before every byte,
/// every byte, and zeros in the bits that pad the last byte.
pub proof fn lemma_round_trip(data: Seq<u8>, c: u8)
    requires
        1 <= data.len() <= 8,
        c <= 1,
    ensures
        packed(data, c).len() == data.len() + 1,
        forall|i: int| 0 <= i < data.len() ==> #[trigger] decoded_control(packed(data, c), i) == c,
        forall|i: int| 0 <= i < data.len() ==> #[trigger] decoded_byte(packed(data, c), i) == data[i],
        forall|k: int|
            9 * data.len() <= k < 8 * packed(data, c).len() ==> #[trigger] bit_at(packed(data, c), k)
                == 0,
{
    let n = data.len();
    let p = packed(data, c);
    lemma_packed_len(n);
    assert forall|i: int| 0 <= i < n implies #[trigger] decoded_control(p, i) == c by {
        lemma_word_round_trip(data, c, i);
    }
    assert forall|i: int| 0 <= i < n implies #[trigger] decoded_byte(p, i) == data[i] by {
        lemma_word_round_trip(data, c, i);
    }
    assert forall|k: int| 9 * n <= k < 8 * p.len() implies #[trigger] bit_at(p, k) == 0 by {
        lemma_padding_bit(data, c, k);
    }
}

} // verus!
