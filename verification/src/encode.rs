//! The scripted line that carries a frame, and the proof that one read
//! transaction decodes it back.
//!
//! A sensor transmitting frame `f` produces a fixed pattern of samples:
//! the acknowledgment low and high, three samples per bit (the low phase,
//! the high phase, and the level at the sample point), and the closing
//! low.  [`trace_of`] writes that pattern down; [`encode_frame_trace`]
//! builds it; [`lemma_trace_round_trip`] proves that a transaction over it
//! returns exactly the validation of `f`.

use vstd::prelude::*;

use crate::driver::{
    bit_step, bits_step, byte_of_bits, byte_step, bytes_step, read_step, wait_hits,
    MAX_WAIT_POLLS,
};
use crate::frame::{checksum, spec_parse, Dht11Data, Dht11Error};
use crate::pin::{line_at, Level};

verus! {

/// The line level that encodes bit `b` at its sample point.
pub open spec fn level_of_bit(b: bool) -> Level {
    if b {
        Level::High
    } else {
        Level::Low
    }
}

/// The three scripted samples of one transmitted bit: the low phase, the
/// high phase, and the level at the sample point.
pub open spec fn bit_trace(b: bool) -> Seq<Level> {
    seq![Level::Low, Level::High, level_of_bit(b)]
}

/// The scripted samples of a run of bits, in order.
pub open spec fn bits_trace(bs: Seq<bool>) -> Seq<Level>
    decreases bs.len(),
{
    if bs.len() == 0 {
        Seq::empty()
    } else {
        bit_trace(bs[0]) + bits_trace(bs.drop_first())
    }
}

/// Bit `i` of byte `v`, most significant first.
pub open spec fn byte_bit(v: u8, i: int) -> bool {
    ((v >> ((7 - i) as u8)) & 1) == 1
}

/// The eight bits of a byte, most significant first.
pub open spec fn bits_of_byte(v: u8) -> Seq<bool> {
    Seq::new(8, |i: int| byte_bit(v, i))
}

/// The bits of a frame, in transmission order.
pub open spec fn frame_bits(f: Seq<u8>) -> Seq<bool>
    decreases f.len(),
{
    if f.len() == 0 {
        Seq::empty()
    } else {
        bits_of_byte(f[0]) + frame_bits(f.drop_first())
    }
}

/// The whole scripted line of one transaction carrying frame `f`: the
/// acknowledgment low and high, the bits of the frame, and the closing
/// low.
pub open spec fn trace_of(f: Seq<u8>) -> Seq<Level> {
    seq![Level::Low, Level::High] + bits_trace(frame_bits(f)) + seq![Level::Low]
}

/// A run of bits scripts three samples per bit.
pub proof fn lemma_bits_trace_len(bs: Seq<bool>)
    ensures
        bits_trace(bs).len() == 3 * bs.len(),
    decreases bs.len(),
{
    if bs.len() > 0 {
        lemma_bits_trace_len(bs.drop_first());
    }
}

/// A frame scripts eight bits per byte.
pub proof fn lemma_frame_bits_len(f: Seq<u8>)
    ensures
        frame_bits(f).len() == 8 * f.len(),
    decreases f.len(),
{
    if f.len() > 0 {
        lemma_frame_bits_len(f.drop_first());
    }
}

/// The script of a concatenation is the concatenation of the scripts.
pub proof fn lemma_bits_trace_concat(a: Seq<bool>, b: Seq<bool>)
    ensures
        bits_trace(a + b) == bits_trace(a) + bits_trace(b),
    decreases a.len(),
{
    if a.len() == 0 {
        assert(a + b =~= b);
        assert(bits_trace(a) + bits_trace(b) =~= bits_trace(b));
    } else {
        assert((a + b).drop_first() =~= a.drop_first() + b);
        lemma_bits_trace_concat(a.drop_first(), b);
        assert(bit_trace((a + b)[0]) + (bits_trace(a.drop_first()) + bits_trace(b)) =~= (bit_trace(
            a[0],
        ) + bits_trace(a.drop_first())) + bits_trace(b));
    }
}

/// Appending one bit appends its three samples.
pub proof fn lemma_bits_trace_snoc(bs: Seq<bool>, b: bool)
    ensures
        bits_trace(bs.push(b)) == bits_trace(bs) + bit_trace(b),
{
    assert(bs.push(b) =~= bs + seq![b]);
    lemma_bits_trace_concat(bs, seq![b]);
    assert(seq![b].len() == 1);
    assert(seq![b][0] == b);
    assert(seq![b].drop_first() =~= Seq::<bool>::empty());
    assert(bits_trace(seq![b]) == bit_trace(seq![b][0]) + bits_trace(seq![b].drop_first()));
    assert(bits_trace(Seq::<bool>::empty()) == Seq::<Level>::empty());
    assert(bit_trace(b) + Seq::<Level>::empty() =~= bit_trace(b));
}

/// Appending one byte appends its eight bits.
pub proof fn lemma_frame_bits_snoc(f: Seq<u8>, v: u8)
    ensures
        frame_bits(f.push(v)) == frame_bits(f) + bits_of_byte(v),
    decreases f.len(),
{
    if f.len() == 0 {
        assert(f.push(v)[0] == v);
        assert(f.push(v).drop_first() =~= Seq::<u8>::empty());
        assert(bits_of_byte(v) + frame_bits(Seq::<u8>::empty()) =~= bits_of_byte(v));
        assert(frame_bits(f) + bits_of_byte(v) =~= bits_of_byte(v));
    } else {
        assert(f.push(v).drop_first() =~= f.drop_first().push(v));
        lemma_frame_bits_snoc(f.drop_first(), v);
        assert(bits_of_byte(f[0]) + (frame_bits(f.drop_first()) + bits_of_byte(v)) =~= (
        bits_of_byte(f[0]) + frame_bits(f.drop_first())) + bits_of_byte(v));
    }
}

/// Reassembling the eight bits of a byte, most significant first, gives
/// the byte back.
pub proof fn lemma_byte_of_its_bits(v: u8)
    ensures
        byte_of_bits(bits_of_byte(v)) == v,
{
    let bs = bits_of_byte(v);
    assert(bs[0] == (((v >> 7u8) & 1) == 1));
    assert(bs[1] == (((v >> 6u8) & 1) == 1));
    assert(bs[2] == (((v >> 5u8) & 1) == 1));
    assert(bs[3] == (((v >> 4u8) & 1) == 1));
    assert(bs[4] == (((v >> 3u8) & 1) == 1));
    assert(bs[5] == (((v >> 2u8) & 1) == 1));
    assert(bs[6] == (((v >> 1u8) & 1) == 1));
    assert(bs[7] == (((v >> 0u8) & 1) == 1));
    assert((if ((v >> 7u8) & 1) == 1 {
        128int
    } else {
        0int
    }) + (if ((v >> 6u8) & 1) == 1 {
        64int
    } else {
        0int
    }) + (if ((v >> 5u8) & 1) == 1 {
        32int
    } else {
        0int
    }) + (if ((v >> 4u8) & 1) == 1 {
        16int
    } else {
        0int
    }) + (if ((v >> 3u8) & 1) == 1 {
        8int
    } else {
        0int
    }) + (if ((v >> 2u8) & 1) == 1 {
        4int
    } else {
        0int
    }) + (if ((v >> 1u8) & 1) == 1 {
        2int
    } else {
        0int
    }) + (if ((v >> 0u8) & 1) == 1 {
        1int
    } else {
        0int
    }) == v as int) by (bit_vector);
}

/// Build the scripted line that carries `frame`, as the simulated pin
/// expects it: acknowledgment low and high, three samples per bit, and
/// the closing low.
pub fn encode_frame_trace(frame: &[u8; 5]) -> (t: Vec<Level>)
    ensures
        t@ == trace_of(frame@),
{
    let mut t: Vec<Level> = Vec::new();
    t.push(Level::Low);
    t.push(Level::High);
    let ghost base = t@;
    let mut j: usize = 0;
    while j < 5
        invariant
            j <= 5,
            base == seq![Level::Low, Level::High],
            t@ == base + bits_trace(frame_bits(frame@.subrange(0, j as int))),
        decreases 5 - j,
    {
        let v: u8 = frame[j];
        let ghost done = frame@.subrange(0, j as int);
        let mut k: usize = 0;
        while k < 8
            invariant
                j < 5,
                k <= 8,
                v == frame@[j as int],
                done == frame@.subrange(0, j as int),
                base == seq![Level::Low, Level::High],
                t@ == base + bits_trace(frame_bits(done)) + bits_trace(
                    bits_of_byte(v).subrange(0, k as int),
                ),
            decreases 8 - k,
        {
            let shamt: u8 = (7 - k) as u8;
            let bit: bool = ((v >> shamt) & 1) == 1;
            let ghost bits_done = bits_of_byte(v).subrange(0, k as int);
            t.push(Level::Low);
            t.push(Level::High);
            if bit {
                t.push(Level::High);
            } else {
                t.push(Level::Low);
            }
            proof {
                assert(bit == byte_bit(v, k as int));
                assert(bits_of_byte(v).subrange(0, k as int + 1) =~= bits_done.push(bit));
                lemma_bits_trace_snoc(bits_done, bit);
                assert(t@ =~= base + bits_trace(frame_bits(done)) + (bits_trace(bits_done)
                    + bit_trace(bit)));
            }
            k = k + 1;
        }
        proof {
            assert(bits_of_byte(v).subrange(0, 8) =~= bits_of_byte(v));
            assert(frame@.subrange(0, j as int + 1) =~= done.push(v));
            lemma_frame_bits_snoc(done, v);
            lemma_bits_trace_concat(frame_bits(done), bits_of_byte(v));
            assert(base + bits_trace(frame_bits(done)) + bits_trace(bits_of_byte(v)) =~= base
                + bits_trace(frame_bits(done.push(v))));
        }
        j = j + 1;
    }
    t.push(Level::Low);
    proof {
        assert(frame@.subrange(0, 5) =~= frame@);
        assert((base + bits_trace(frame_bits(frame@))).push(Level::Low) =~= trace_of(frame@));
    }
    t
}

/// A scripted run of bits decodes to exactly those bits, consuming three
/// samples per bit.
proof fn lemma_bits_decode(s: Seq<Level>, pos: int, bs: Seq<bool>)
    requires
        0 <= pos,
        pos + 3 * bs.len() <= s.len(),
        s.subrange(pos, pos + 3 * bs.len()) == bits_trace(bs),
    ensures
        bits_step(s, pos, MAX_WAIT_POLLS as nat, bs.len()) == (Some(bs), pos + 3 * bs.len()),
    decreases bs.len(),
{
    lemma_bits_trace_len(bs);
    if bs.len() == 0 {
        assert(bits_step(s, pos, MAX_WAIT_POLLS as nat, 0) == (
            Some(Seq::<bool>::empty()),
            pos,
        ));
        assert(bs =~= Seq::<bool>::empty());
    } else {
        let rest = bs.drop_first();
        lemma_bits_trace_len(rest);
        let sub = s.subrange(pos, pos + 3 * bs.len());
        assert(s[pos] == sub[0]);
        assert(s[pos + 1] == sub[1]);
        assert(s[pos + 2] == sub[2]);
        assert(sub[0] == Level::Low);
        assert(sub[1] == Level::High);
        assert(sub[2] == level_of_bit(bs[0]));
        assert(line_at(s, pos) == Level::Low);
        assert(wait_hits(s, pos, Level::Low, MAX_WAIT_POLLS as nat) == Some(0nat));
        assert(line_at(s, pos + 1) == Level::High);
        assert(wait_hits(s, pos + 1, Level::High, MAX_WAIT_POLLS as nat) == Some(0nat));
        assert(line_at(s, pos + 2) == level_of_bit(bs[0]));
        assert(bit_step(s, pos, MAX_WAIT_POLLS as nat) == (Some(bs[0]), pos + 3));
        assert(s.subrange(pos + 3, pos + 3 + 3 * rest.len()) =~= bits_trace(rest)) by {
            assert(bits_trace(bs) == bit_trace(bs[0]) + bits_trace(rest));
            assert forall|i: int| 0 <= i < 3 * rest.len() implies s.subrange(
                pos + 3,
                pos + 3 + 3 * rest.len(),
            )[i] == bits_trace(rest)[i] by {
                assert(s.subrange(pos + 3, pos + 3 + 3 * rest.len())[i] == sub[i + 3]);
                assert(sub[i + 3] == (bit_trace(bs[0]) + bits_trace(rest))[i + 3]);
            }
        }
        lemma_bits_decode(s, pos + 3, rest);
        assert(seq![bs[0]] + rest =~= bs);
    }
}

/// A scripted frame decodes to exactly its bytes, consuming twenty-four
/// samples per byte.
proof fn lemma_bytes_decode(s: Seq<Level>, pos: int, f: Seq<u8>)
    requires
        0 <= pos,
        pos + 24 * f.len() <= s.len(),
        s.subrange(pos, pos + 24 * f.len()) == bits_trace(frame_bits(f)),
    ensures
        bytes_step(s, pos, MAX_WAIT_POLLS as nat, f.len()) == (Some(f), pos + 24 * f.len()),
    decreases f.len(),
{
    if f.len() == 0 {
        assert(f =~= Seq::<u8>::empty());
    } else {
        let rest = f.drop_first();
        let head_bits = bits_of_byte(f[0]);
        assert(frame_bits(f) == head_bits + frame_bits(rest));
        lemma_bits_trace_concat(head_bits, frame_bits(rest));
        lemma_bits_trace_len(head_bits);
        lemma_bits_trace_len(frame_bits(rest));
        lemma_frame_bits_len(rest);
        let sub = s.subrange(pos, pos + 24 * f.len());
        assert(s.subrange(pos, pos + 24) =~= bits_trace(head_bits)) by {
            assert forall|i: int| 0 <= i < 24 implies s.subrange(pos, pos + 24)[i] == bits_trace(
                head_bits,
            )[i] by {
                assert(s.subrange(pos, pos + 24)[i] == sub[i]);
                assert(sub[i] == (bits_trace(head_bits) + bits_trace(frame_bits(rest)))[i]);
            }
        }
        lemma_bits_decode(s, pos, head_bits);
        lemma_byte_of_its_bits(f[0]);
        assert(byte_step(s, pos, MAX_WAIT_POLLS as nat) == (Some(f[0]), pos + 24));
        assert(s.subrange(pos + 24, pos + 24 + 24 * rest.len()) =~= bits_trace(frame_bits(rest)))
            by {
            assert forall|i: int| 0 <= i < 24 * rest.len() implies s.subrange(
                pos + 24,
                pos + 24 + 24 * rest.len(),
            )[i] == bits_trace(frame_bits(rest))[i] by {
                assert(s.subrange(pos + 24, pos + 24 + 24 * rest.len())[i] == sub[i + 24]);
                assert(sub[i + 24] == (bits_trace(head_bits) + bits_trace(frame_bits(rest)))[i
                    + 24]);
            }
        }
        lemma_bytes_decode(s, pos + 24, rest);
        assert(seq![f[0]] + rest =~= f);
    }
}

/// Round trip: one transaction over the scripted line that carries frame
/// `f` consumes the whole script and returns exactly the validation of
/// `f` — the reading of its payload when the checksum matches, and the
/// checksum mismatch otherwise.
pub proof fn lemma_trace_round_trip(f: Seq<u8>)
    requires
        f.len() == 5,
    ensures
        trace_of(f).len() == 123,
        read_step(trace_of(f), 0, MAX_WAIT_POLLS as nat) == (spec_parse(f), 123int),
{
    let s = trace_of(f);
    let bt = bits_trace(frame_bits(f));
    lemma_frame_bits_len(f);
    lemma_bits_trace_len(frame_bits(f));
    assert(bt.len() == 120);
    assert(s.len() == 123);
    assert(s[0] == Level::Low);
    assert(s[1] == Level::High);
    assert(wait_hits(s, 0, Level::Low, MAX_WAIT_POLLS as nat) == Some(0nat));
    assert(wait_hits(s, 1, Level::High, MAX_WAIT_POLLS as nat) == Some(0nat));
    assert(s.subrange(2, 122) =~= bt);
    lemma_bytes_decode(s, 2, f);
    assert(bytes_step(s, 2, MAX_WAIT_POLLS as nat, 5) == (Some(f), 122int));
    assert(s[122] == Level::Low);
    assert(wait_hits(s, 122, Level::Low, MAX_WAIT_POLLS as nat) == Some(0nat));
}

/// Checksum validity, end to end: the scripted line carrying any payload
/// followed by its wrapping sum reads back as a reading holding that
/// payload, field by field.
pub proof fn lemma_read_accepts_valid_frame(b0: u8, b1: u8, b2: u8, b3: u8)
    ensures
        ({
            let f = seq![b0, b1, b2, b3, checksum(b0, b1, b2, b3)];
            read_step(trace_of(f), 0, MAX_WAIT_POLLS as nat).0 == Ok::<Dht11Data, Dht11Error>(
                Dht11Data {
                    humidity_integral: b0,
                    humidity_decimal: b1,
                    temperature_integral: b2,
                    temperature_decimal: b3,
                },
            )
        }),
{
    let f = seq![b0, b1, b2, b3, checksum(b0, b1, b2, b3)];
    lemma_trace_round_trip(f);
}

/// Checksum rejection, end to end: the scripted line carrying a frame
/// whose 5th byte is not the wrapping sum of the first four reads back as
/// a checksum mismatch, never as a reading.
pub proof fn lemma_read_rejects_bad_checksum(f: Seq<u8>)
    requires
        f.len() == 5,
        f[4] != checksum(f[0], f[1], f[2], f[3]),
    ensures
        read_step(trace_of(f), 0, MAX_WAIT_POLLS as nat).0 == Err::<Dht11Data, Dht11Error>(
            Dht11Error::ChecksumMismatch,
        ),
{
    lemma_trace_round_trip(f);
}

} // verus!
