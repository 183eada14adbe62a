use vstd::prelude::*;

verus! {

/// Largest value a variable-length integer can carry: two bits of the
/// first byte hold the encoded length, leaving 62 bits for the value.
pub const VARINT_MAX: u64 = 0x3FFF_FFFF_FFFF_FFFF;

/// Number of bytes of the shortest encoding of `v`.
pub open spec fn varint_len(v: u64) -> int {
    if v < 0x40 {
        1
    } else if v < 0x4000 {
        2
    } else if v < 0x4000_0000 {
        4
    } else {
        8
    }
}

/// The shortest wire encoding of `v`: the first byte carries a two-bit
/// length prefix (00, 01, 10, 11 for 1, 2, 4, 8 bytes) followed by the
/// value in big-endian byte order.
#[verifier::opaque]
pub open spec fn varint_bytes(v: u64) -> Seq<u8> {
    if v < 0x40 {
        seq![v as u8]
    } else if v < 0x4000 {
        seq![(0x40 + v / 0x100) as u8, (v % 0x100) as u8]
    } else if v < 0x4000_0000 {
        seq![
            (0x80 + v / 0x100_0000) as u8,
            ((v / 0x1_0000) % 0x100) as u8,
            ((v / 0x100) % 0x100) as u8,
            (v % 0x100) as u8,
        ]
    } else {
        seq![
            (0xC0 + v / 0x100_0000_0000_0000) as u8,
            ((v / 0x1_0000_0000_0000) % 0x100) as u8,
            ((v / 0x100_0000_0000) % 0x100) as u8,
            ((v / 0x1_0000_0000) % 0x100) as u8,
            ((v / 0x100_0000) % 0x100) as u8,
            ((v / 0x1_0000) % 0x100) as u8,
            ((v / 0x100) % 0x100) as u8,
            (v % 0x100) as u8,
        ]
    }
}

/// Encoded length announced by a first byte: its two top bits.
pub open spec fn varint_prefix_len(b0: u8) -> int {
    if b0 < 0x40 {
        1
    } else if b0 < 0x80 {
        2
    } else if b0 < 0xC0 {
        4
    } else {
        8
    }
}

/// The value carried by an encoding `s` whose length equals the length
/// announced by its first byte.
#[verifier::opaque]
pub open spec fn varint_value(s: Seq<u8>) -> int {
    let b0 = (s[0] % 0x40) as int;
    if s[0] < 0x40 {
        b0
    } else if s[0] < 0x80 {
        b0 * 0x100 + s[1]
    } else if s[0] < 0xC0 {
        b0 * 0x100_0000 + s[1] * 0x1_0000 + s[2] * 0x100 + s[3]
    } else {
        b0 * 0x100_0000_0000_0000 + s[1] * 0x1_0000_0000_0000 + s[2] * 0x100_0000_0000
            + s[3] * 0x1_0000_0000 + s[4] * 0x100_0000 + s[5] * 0x1_0000 + s[6] * 0x100 + s[7]
    }
}

/// Reading one variable-length integer from the head of `s`: `None` when
/// `s` is too short, otherwise the value and the number of bytes consumed.
pub open spec fn varint_parse(s: Seq<u8>) -> Option<(int, int)> {
    if s.len() == 0 {
        None
    } else {
        let l = varint_prefix_len(s[0]);
        if s.len() < l {
            None
        } else {
            Some((varint_value(s.take(l)), l))
        }
    }
}

/// Appends the shortest encoding of `v` to `out`.
pub fn encode_varint(v: u64, out: &mut Vec<u8>)
    requires
        v <= VARINT_MAX,
    ensures
        final(out)@ == old(out)@ + varint_bytes(v),
{
    if v < 0x40 {
        out.push(v as u8);
    } else if v < 0x4000 {
        out.push((0x40 + v / 0x100) as u8);
        out.push((v % 0x100) as u8);
    } else if v < 0x4000_0000 {
        out.push((0x80 + v / 0x100_0000) as u8);
        out.push(((v / 0x1_0000) % 0x100) as u8);
        out.push(((v / 0x100) % 0x100) as u8);
        out.push((v % 0x100) as u8);
    } else {
        out.push((0xC0 + v / 0x100_0000_0000_0000) as u8);
        out.push(((v / 0x1_0000_0000_0000) % 0x100) as u8);
        out.push(((v / 0x100_0000_0000) % 0x100) as u8);
        out.push(((v / 0x1_0000_0000) % 0x100) as u8);
        out.push(((v / 0x100_0000) % 0x100) as u8);
        out.push(((v / 0x1_0000) % 0x100) as u8);
        out.push(((v / 0x100) % 0x100) as u8);
        out.push((v % 0x100) as u8);
    }
    proof {
        reveal(varint_bytes);
    }
    assert(out@ =~= old(out)@ + varint_bytes(v));
}

/// Reads one variable-length integer starting at `pos`; returns the value
/// and the number of bytes consumed, or `None` when the buffer ends before
/// the encoding does.
pub fn decode_varint(bytes: &[u8], pos: usize) -> (r: Option<(u64, usize)>)
    requires
        pos <= bytes@.len(),
    ensures
        ({
            let s = bytes@.skip(pos as int);
            match r {
                None => varint_parse(s) is None,
                Some((v, c)) => {
                    &&& varint_parse(s) == Some((v as int, c as int))
                    &&& 1 <= c <= 8
                    &&& pos + c <= bytes@.len()
                    &&& v <= VARINT_MAX
                },
            }
        }),
{
    proof {
        reveal(varint_value);
    }
    let ghost s = bytes@.skip(pos as int);
    if pos >= bytes.len() {
        return None;
    }
    let b0 = bytes[pos];
    if b0 < 0x40 {
        assert(s.take(1) =~= seq![bytes@[pos as int]]);
        Some((b0 as u64, 1))
    } else if b0 < 0x80 {
        if bytes.len() - pos < 2 {
            return None;
        }
        let v = ((b0 % 0x40) as u64) * 0x100 + bytes[pos + 1] as u64;
        assert(s.take(2) =~= seq![bytes@[pos as int], bytes@[pos + 1]]);
        Some((v, 2))
    } else if b0 < 0xC0 {
        if bytes.len() - pos < 4 {
            return None;
        }
        let v = ((b0 % 0x40) as u64) * 0x100_0000 + (bytes[pos + 1] as u64) * 0x1_0000
            + (bytes[pos + 2] as u64) * 0x100 + bytes[pos + 3] as u64;
        assert(s.take(4) =~= seq![
            bytes@[pos as int],
            bytes@[pos + 1],
            bytes@[pos + 2],
            bytes@[pos + 3],
        ]);
        Some((v, 4))
    } else {
        if bytes.len() - pos < 8 {
            return None;
        }
        let v = ((b0 % 0x40) as u64) * 0x100_0000_0000_0000
            + (bytes[pos + 1] as u64) * 0x1_0000_0000_0000
            + (bytes[pos + 2] as u64) * 0x100_0000_0000 + (bytes[pos + 3] as u64) * 0x1_0000_0000
            + (bytes[pos + 4] as u64) * 0x100_0000 + (bytes[pos + 5] as u64) * 0x1_0000
            + (bytes[pos + 6] as u64) * 0x100 + bytes[pos + 7] as u64;
        assert(s.take(8) =~= seq![
            bytes@[pos as int],
            bytes@[pos + 1],
            bytes@[pos + 2],
            bytes@[pos + 3],
            bytes@[pos + 4],
            bytes@[pos + 5],
            bytes@[pos + 6],
            bytes@[pos + 7],
        ]);
        Some((v, 8))
    }
}

/// The encoding of `v` has exactly the announced length, at most eight
/// bytes.
pub proof fn lemma_varint_bytes_len(v: u64)
    ensures
        varint_bytes(v).len() == varint_len(v),
        1 <= varint_len(v) <= 8,
{
    reveal(varint_bytes);
}

/// A parsed value always fits the variable-length range, and its shortest
/// encoding is never longer than the bytes it was read from.
pub proof fn lemma_varint_parse_bounds(s: Seq<u8>)
    ensures
        varint_parse(s) matches Some((v, c)) ==> 0 <= v <= VARINT_MAX && varint_len(v as u64) <= c,
{
    reveal(varint_value);
    if s.len() > 0 {
        let l = varint_prefix_len(s[0]);
        if s.len() >= l {
            let v = varint_value(s.take(l));
            assert(s.take(l)[0] == s[0]);
        }
    }
}

/// Round trip: the shortest encoding of `v`, whatever follows it, parses
/// back to `v` and consumes exactly its own length.
pub proof fn lemma_varint_round_trip(v: u64, rest: Seq<u8>)
    requires
        v <= VARINT_MAX,
    ensures
        varint_parse(varint_bytes(v) + rest) == Some((v as int, varint_len(v))),
{
    reveal(varint_bytes);
    reveal(varint_value);
    let s = varint_bytes(v) + rest;
    assert(s.take(varint_len(v)) =~= varint_bytes(v));
    if v < 0x40 {
    } else if v < 0x4000 {
        let b0v: u64 = (0x40 + v / 0x100) as u64;
        assert(((b0v % 0x40) * 0x100 + v % 0x100 == v) && (0x40 <= b0v) && (b0v < 0x80))
            by (bit_vector)
            requires
                (0x40 <= v) && (v < 0x4000) && (b0v == 0x40 + v / 0x100),
        ;
        assert((b0v as u8) % 0x40 == b0v % 0x40);
    } else if v < 0x4000_0000 {
        let b0v: u64 = (0x80 + v / 0x100_0000) as u64;
        assert(((b0v % 0x40) * 0x100_0000 + ((v / 0x1_0000) % 0x100) * 0x1_0000 + ((v / 0x100)
            % 0x100) * 0x100 + v % 0x100 == v) && (0x80 <= b0v) && (b0v < 0xC0)) by (bit_vector)
            requires
                (0x4000 <= v) && (v < 0x4000_0000) && (b0v == 0x80 + v / 0x100_0000),
        ;
        assert((b0v as u8) % 0x40 == b0v % 0x40);
    } else {
        let b0v: u64 = (0xC0 + v / 0x100_0000_0000_0000) as u64;
        assert(((b0v % 0x40) * 0x100_0000_0000_0000 + ((v / 0x1_0000_0000_0000) % 0x100)
            * 0x1_0000_0000_0000 + ((v / 0x100_0000_0000) % 0x100) * 0x100_0000_0000 + ((v
            / 0x1_0000_0000) % 0x100) * 0x1_0000_0000 + ((v / 0x100_0000) % 0x100) * 0x100_0000 + (
        (v / 0x1_0000) % 0x100) * 0x1_0000 + ((v / 0x100) % 0x100) * 0x100 + v % 0x100 == v) && (
        0xC0 <= b0v) && (b0v < 0x100)) by (bit_vector)
            requires
                (0x4000_0000 <= v) && (v <= 0x3FFF_FFFF_FFFF_FFFF) && (b0v == 0xC0 + v
                    / 0x100_0000_0000_0000),
        ;
        assert((b0v as u8) % 0x40 == b0v % 0x40);
    }
}

} // verus!
