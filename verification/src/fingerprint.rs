//! A 128-bit fingerprint of a list of byte strings: two FNV-1a style
//! 64-bit lanes, each string preceded by its length, printed in hex.
//! Source revisions and plan tokens are fingerprints.
use vstd::prelude::*;

verus! {

/// The multiplier of both lanes.
pub const FNV_PRIME: u64 = 0x0000_0100_0000_01b3;

/// The starting value of the left lane.
pub const LEFT_START: u64 = 0xcbf2_9ce4_8422_2325;

/// The starting value of the right lane.
pub const RIGHT_START: u64 = 0x8422_2325_cbf2_9ce4;

/// Both lanes after one more byte. The right lane takes the byte rotated
/// left by one bit, which for a byte is the byte doubled.
pub open spec fn step(st: (u64, u64), b: u8) -> (u64, u64) {
    (
        (st.0 ^ (b as u64)).wrapping_mul(FNV_PRIME),
        (st.1 ^ (((b as u64) * 2) as u64)).wrapping_mul(FNV_PRIME),
    )
}

/// Both lanes after the bytes `bs`, in order.
pub open spec fn absorb(st: (u64, u64), bs: Seq<u8>) -> (u64, u64)
    decreases bs.len(),
{
    if bs.len() == 0 {
        st
    } else {
        step(absorb(st, bs.drop_last()), bs.last())
    }
}

/// The eight little-endian bytes of `n`.
pub open spec fn le_bytes(n: u64) -> Seq<u8> {
    Seq::new(8, |k: int| ((n >> ((8 * k) as u64)) & 0xff) as u8)
}

/// Both lanes after one string: its length as eight little-endian bytes,
/// then its bytes.
pub open spec fn absorb_field(st: (u64, u64), field: Seq<u8>) -> (u64, u64) {
    absorb(absorb(st, le_bytes(field.len() as u64)), field)
}

/// Both lanes after a list of strings, from the starting values.
pub open spec fn absorb_fields(fields: Seq<Seq<u8>>) -> (u64, u64)
    decreases fields.len(),
{
    if fields.len() == 0 {
        (LEFT_START, RIGHT_START)
    } else {
        absorb_field(absorb_fields(fields.drop_last()), fields.last())
    }
}

/// The lower-case hex digit of `d` (below 16).
pub open spec fn hex_char(d: u8) -> char {
    if d < 10 {
        ((48 + d) as u8) as char
    } else {
        ((87 + d) as u8) as char
    }
}

/// The sixteen lower-case hex digits of `x`, most significant first.
pub open spec fn hex16(x: u64) -> Seq<char> {
    Seq::new(16, |k: int| hex_char(((x >> ((60 - 4 * k) as u64)) & 0xf) as u8))
}

/// The printed fingerprint: the prefix, a dash, and both lanes in hex.
pub open spec fn fingerprint_text(prefix: Seq<char>, st: (u64, u64)) -> Seq<char> {
    prefix + seq!['-'] + hex16(st.0) + hex16(st.1)
}

/// A fingerprint being computed.
pub struct Fingerprint {
    left: u64,
    right: u64,
}

impl View for Fingerprint {
    type V = (u64, u64);

    closed spec fn view(&self) -> (u64, u64) {
        (self.left, self.right)
    }
}

fn push_char(s: &mut Vec<char>, c: char)
    ensures
        final(s)@ == old(s)@.push(c),
{
    s.push(c);
}

fn hex_digits(x: u64, out: &mut Vec<char>)
    ensures
        final(out)@ == old(out)@ + hex16(x),
{
    let ghost start = out@;
    let mut k: u64 = 0;
    while k < 16
        invariant
            k <= 16,
            out@ == start + hex16(x).take(k as int),
        decreases 16 - k,
    {
        let shift: u64 = 60 - 4 * k;
        let m: u64 = (x >> shift) & 0xf;
        assert(m < 16) by (bit_vector)
            requires
                m == (x >> shift) & 0xf,
        ;
        let d: u8 = m as u8;
        let c = if d < 10 {
            (48u8 + d) as char
        } else {
            (87u8 + d) as char
        };
        assert(c == hex16(x)[k as int]);
        push_char(out, c);
        assert(hex16(x).take(k + 1) =~= hex16(x).take(k as int).push(c));
        k = k + 1;
    }
    assert(hex16(x).take(16) =~= hex16(x));
}

impl Fingerprint {
    /// A fingerprint of nothing yet.
    pub fn new() -> (r: Self)
        ensures
            r@ == absorb_fields(seq![]),
    {
        Fingerprint { left: LEFT_START, right: RIGHT_START }
    }

    /// Takes in some bytes.
    pub fn update_raw(&mut self, bytes: &[u8])
        ensures
            final(self)@ == absorb(old(self)@, bytes@),
    {
        let ghost start = self@;
        let mut i: usize = 0;
        while i < bytes.len()
            invariant
                i <= bytes.len(),
                self@ == absorb(start, bytes@.take(i as int)),
            decreases bytes.len() - i,
        {
            let b = bytes[i];
            self.left = (self.left ^ (b as u64)).wrapping_mul(FNV_PRIME);
            self.right = (self.right ^ ((b as u64) * 2)).wrapping_mul(FNV_PRIME);
            assert(bytes@.take(i + 1).drop_last() =~= bytes@.take(i as int));
            i = i + 1;
        }
        assert(bytes@.take(bytes@.len() as int) =~= bytes@);
    }

    /// Takes in one string: its length, then its bytes.
    pub fn update(&mut self, bytes: &[u8])
        ensures
            final(self)@ == absorb_field(old(self)@, bytes@),
    {
        let n = bytes.len() as u64;
        let mut len_bytes: Vec<u8> = Vec::new();
        let mut k: u64 = 0;
        while k < 8
            invariant
                k <= 8,
                n == bytes@.len() as u64,
                len_bytes@ == le_bytes(n).take(k as int),
            decreases 8 - k,
        {
            len_bytes.push(((n >> (8 * k)) & 0xff) as u8);
            assert(le_bytes(n).take(k + 1) =~= le_bytes(n).take(k as int).push(
                ((n >> (8 * k)) & 0xff) as u8,
            ));
            k = k + 1;
        }
        assert(le_bytes(n).take(8) =~= le_bytes(n));
        self.update_raw(len_bytes.as_slice());
        self.update_raw(bytes);
    }

    /// The printed fingerprint (see [`fingerprint_text`]).
    pub fn finish(&self, prefix: &str) -> (r: Vec<char>)
        ensures
            r@ == fingerprint_text(prefix@, self@),
    {
        let mut out = crate::text::chars_of(prefix);
        push_char(&mut out, '-');
        hex_digits(self.left, &mut out);
        hex_digits(self.right, &mut out);
        proof {
            lemma_text_parts(prefix@, self@);
        }
        out
    }
}

proof fn lemma_text_parts(prefix: Seq<char>, st: (u64, u64))
    ensures
        prefix.push('-') + hex16(st.0) + hex16(st.1) == fingerprint_text(prefix, st),
{
    assert(prefix.push('-') =~= prefix + seq!['-']);
}

/// `x` rotated left by seven bits.
pub open spec fn rotl7(x: u64) -> u64 {
    (x << 7u64) | (x >> 57u64)
}

/// Both lanes after one more byte, in the variant whose right lane is
/// also rotated after each byte.
pub open spec fn step_rotating(st: (u64, u64), b: u8) -> (u64, u64) {
    (
        (st.0 ^ (b as u64)).wrapping_mul(FNV_PRIME),
        rotl7((st.1 ^ (((b as u64) * 2) as u64)).wrapping_mul(FNV_PRIME)),
    )
}

/// Both lanes of the rotating variant after the bytes `bs`, from the
/// starting values.
pub open spec fn absorb_rotating(bs: Seq<u8>) -> (u64, u64)
    decreases bs.len(),
{
    if bs.len() == 0 {
        (LEFT_START, RIGHT_START)
    } else {
        step_rotating(absorb_rotating(bs.drop_last()), bs.last())
    }
}

/// The printed rotating fingerprint of `bytes` (see [`absorb_rotating`]).
pub fn rotating_fingerprint(prefix: &str, bytes: &Vec<u8>) -> (r: Vec<char>)
    ensures
        r@ == fingerprint_text(prefix@, absorb_rotating(bytes@)),
{
    let mut left: u64 = LEFT_START;
    let mut right: u64 = RIGHT_START;
    let mut i: usize = 0;
    while i < bytes.len()
        invariant
            i <= bytes.len(),
            (left, right) == absorb_rotating(bytes@.take(i as int)),
        decreases bytes.len() - i,
    {
        let b = bytes[i];
        left = (left ^ (b as u64)).wrapping_mul(FNV_PRIME);
        let mixed = (right ^ ((b as u64) * 2)).wrapping_mul(FNV_PRIME);
        right = (mixed << 7u64) | (mixed >> 57u64);
        assert(bytes@.take(i + 1).drop_last() =~= bytes@.take(i as int));
        i = i + 1;
    }
    assert(bytes@.take(bytes@.len() as int) =~= bytes@);
    let mut out = crate::text::chars_of(prefix);
    push_char(&mut out, '-');
    hex_digits(left, &mut out);
    hex_digits(right, &mut out);
    proof {
        lemma_text_parts(prefix@, (left, right));
    }
    out
}

} // verus!
