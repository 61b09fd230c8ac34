//! Standard Base64 (RFC 4648, with `=` padding) for video frames and for the
//! privileged helper's arguments.
use vstd::prelude::*;
use vstd::string::StringSliceAdditionalSpecFns;
use crate::text::push_char;

verus! {

/// The character of a 6-bit value in the standard alphabet.
pub open spec fn b64_char(v: int) -> char {
    if v < 26 {
        (('A' as int) + v) as char
    } else if v < 52 {
        (('a' as int) + v - 26) as char
    } else if v < 62 {
        (('0' as int) + v - 52) as char
    } else if v == 62 {
        '+'
    } else {
        '/'
    }
}

/// The 6-bit value of an alphabet byte, or nothing for any other byte
/// (the padding `=` included).
pub open spec fn b64_value(c: u8) -> Option<int> {
    if 65 <= c <= 90 {
        Some(c - 65)
    } else if 97 <= c <= 122 {
        Some(c - 97 + 26)
    } else if 48 <= c <= 57 {
        Some(c - 48 + 52)
    } else if c == 43 {
        Some(62)
    } else if c == 47 {
        Some(63)
    } else {
        None
    }
}

/// The four characters of one group of `n` bytes (1 to 3), the missing
/// bytes counting as zero and their characters written as `=`.
#[verifier::opaque]
pub open spec fn encode_group(b0: int, b1: int, b2: int, n: int) -> Seq<char> {
    let v = b0 * 65536 + b1 * 256 + b2;
    seq![
        b64_char(v / 262144),
        b64_char((v / 4096) % 64),
        if n > 1 {
            b64_char((v / 64) % 64)
        } else {
            '='
        },
        if n > 2 {
            b64_char(v % 64)
        } else {
            '='
        },
    ]
}

/// The encoding of `b`: each group of three bytes becomes four characters;
/// a final group of one or two bytes is padded with `=`.
pub open spec fn encode_spec(b: Seq<u8>) -> Seq<char>
    decreases b.len(),
{
    if b.len() == 0 {
        Seq::empty()
    } else {
        let group = encode_group(
            b[0] as int,
            if b.len() > 1 {
                b[1] as int
            } else {
                0
            },
            if b.len() > 2 {
                b[2] as int
            } else {
                0
            },
            if b.len() >= 3 {
                3
            } else {
                b.len() as int
            },
        );
        if b.len() <= 3 {
            group
        } else {
            group + encode_spec(b.skip(3))
        }
    }
}

/// The decoding of one group of four bytes, the last group or not; `None`
/// when the group is not canonical.
#[verifier::opaque]
pub open spec fn decode_group(g: Seq<u8>, last: bool) -> Option<Seq<u8>> {
    let pad2 = g[2] == 61;
    let pad3 = g[3] == 61;
    if (g.contains(61) && !last) || (pad2 && !pad3) {
        None
    } else {
        match (b64_value(g[0]), b64_value(g[1]), if pad2 {
            Some(0int)
        } else {
            b64_value(g[2])
        }, if pad3 {
            Some(0int)
        } else {
            b64_value(g[3])
        }) {
            (Some(a), Some(b), Some(c), Some(d)) => {
                if (pad2 && b % 16 != 0) || (pad3 && !pad2 && c % 4 != 0) {
                    None
                } else {
                    let bits = a * 262144 + b * 4096 + c * 64 + d;
                    Some(
                        seq![((bits / 65536) % 256) as u8] + (if !pad2 {
                            seq![((bits / 256) % 256) as u8]
                        } else {
                            Seq::<u8>::empty()
                        }) + (if !pad3 {
                            seq![(bits % 256) as u8]
                        } else {
                            Seq::<u8>::empty()
                        }),
                    )
                }
            },
            _ => None,
        }
    }
}

/// The decoding of a sequence of whole groups.
pub open spec fn decode_groups(s: Seq<u8>) -> Option<Seq<u8>>
    decreases s.len(),
{
    if s.len() < 4 {
        Some(Seq::empty())
    } else {
        match decode_group(s.take(4), s.len() == 4) {
            Some(out) => match decode_groups(s.skip(4)) {
                Some(rest) => Some(out + rest),
                None => None,
            },
            None => None,
        }
    }
}

/// The bytes a Base64 text stands for: its length must be a multiple of
/// four, padding may only end the text, and unused bits must be zero.
pub open spec fn decode_spec(s: Seq<u8>) -> Option<Seq<u8>> {
    if s.len() % 4 != 0 {
        None
    } else {
        decode_groups(s)
    }
}

fn b64_char_exec(v: u32) -> (c: char)
    requires
        v < 64,
    ensures
        c == b64_char(v as int),
{
    if v < 26 {
        (65u8 + v as u8) as char
    } else if v < 52 {
        (97u8 + (v - 26) as u8) as char
    } else if v < 62 {
        (48u8 + (v - 52) as u8) as char
    } else if v == 62 {
        '+'
    } else {
        '/'
    }
}


proof fn lemma_group_digits(b0: u32, b1: u32, b2: u32)
    requires
        b0 < 256,
        b1 < 256,
        b2 < 256,
    ensures
        ({
            let v = b0 * 65536 + b1 * 256 + b2;
            &&& v / 262144 < 64
            &&& (v / 262144) * 262144 + ((v / 4096) % 64) * 4096 + ((v / 64) % 64) * 64 + v % 64
                == v
            &&& (v / 65536) % 256 == b0
            &&& (v / 256) % 256 == b1
            &&& v % 256 == b2
            &&& (b1 == 0 && b2 == 0) ==> ((v / 4096) % 64) % 16 == 0 && (v / 64) % 64 == 0 && v
                % 64 == 0
            &&& b2 == 0 ==> ((v / 64) % 64) % 4 == 0 && v % 64 == 0
        }),
{
    assert({
        let v = b0 * 65536 + b1 * 256 + b2;
        &&& v / 262144 < 64
        &&& (v / 262144) * 262144 + ((v / 4096) % 64) * 4096 + ((v / 64) % 64) * 64 + v % 64 == v
        &&& (v / 65536) % 256 == b0
        &&& (v / 256) % 256 == b1
        &&& v % 256 == b2
        &&& (b1 == 0 && b2 == 0) ==> ((v / 4096) % 64) % 16 == 0 && (v / 64) % 64 == 0 && v % 64
            == 0
        &&& b2 == 0 ==> ((v / 64) % 64) % 4 == 0 && v % 64 == 0
    }) by (bit_vector)
        requires
            b0 < 256,
            b1 < 256,
            b2 < 256,
    ;
}

/// The Base64 text of `bytes`.
pub fn encode_base64(bytes: &[u8]) -> (r: String)
    ensures
        r@ == encode_spec(bytes@),
{
    let mut out = String::new();
    let mut i: usize = 0;
    let ghost b = bytes@;
    proof {
        assert(b.skip(0) == b);
    }
    while i < bytes.len()
        invariant
            i <= bytes.len(),
            b == bytes@,
            out@ + encode_spec(b.skip(i as int)) == encode_spec(b),
        decreases bytes.len() - i,
    {
        let n = bytes.len() - i;
        let b0 = bytes[i] as u32;
        let b1 = if n > 1 {
            bytes[i + 1] as u32
        } else {
            0
        };
        let b2 = if n > 2 {
            bytes[i + 2] as u32
        } else {
            0
        };
        proof {
            lemma_group_digits(b0, b1, b2);
            reveal(encode_group);
        }
        let v = b0 * 65536 + b1 * 256 + b2;
        let ghost rest = b.skip(i as int);
        let ghost before = out@;
        push_char(&mut out, b64_char_exec(v / 262144));
        push_char(&mut out, b64_char_exec((v / 4096) % 64));
        if n > 1 {
            push_char(&mut out, b64_char_exec((v / 64) % 64));
        } else {
            push_char(&mut out, '=');
        }
        if n > 2 {
            push_char(&mut out, b64_char_exec(v % 64));
        } else {
            push_char(&mut out, '=');
        }
        proof {
            assert(rest[0] == bytes@[i as int]);
            if n > 1 {
                assert(rest[1] == bytes@[i + 1]);
            }
            if n > 2 {
                assert(rest[2] == bytes@[i + 2]);
            }
            let group = out@.subrange(before.len() as int, before.len() as int + 4);
            assert(out@ =~= before + group);
            if n <= 3 {
                assert(encode_spec(rest) =~= group);
                assert(b.skip(bytes.len() as int) =~= Seq::<u8>::empty());
            } else {
                assert(rest.skip(3) =~= b.skip(i + 3));
                assert(encode_spec(rest) =~= group + encode_spec(b.skip(i + 3)));
            }
        }
        i = if n > 3 {
            i + 3
        } else {
            bytes.len()
        };
        assert(out@ + encode_spec(b.skip(i as int)) =~= encode_spec(b));
    }
    assert(b.skip(bytes.len() as int) =~= Seq::<u8>::empty());
    assert(out@ + Seq::<char>::empty() =~= out@);
    out
}

fn b64_value_exec(c: u8) -> (r: Option<u32>)
    ensures
        r matches Some(v) ==> b64_value(c) == Some(v as int) && v < 64,
        r is None ==> b64_value(c) is None,
{
    if 65 <= c && c <= 90 {
        Some((c - 65) as u32)
    } else if 97 <= c && c <= 122 {
        Some((c - 97 + 26) as u32)
    } else if 48 <= c && c <= 57 {
        Some((c - 48 + 52) as u32)
    } else if c == 43 {
        Some(62)
    } else if c == 47 {
        Some(63)
    } else {
        None
    }
}

fn decode_group_exec(g0: u8, g1: u8, g2: u8, g3: u8, last: bool) -> (r: Option<Vec<u8>>)
    ensures
        r matches Some(v) ==> decode_group(seq![g0, g1, g2, g3], last) == Some(v@),
        r is None ==> decode_group(seq![g0, g1, g2, g3], last) is None,
{
    reveal(decode_group);
    let ghost g = seq![g0, g1, g2, g3];
    let has_pad = g0 == 61 || g1 == 61 || g2 == 61 || g3 == 61;
    assert(has_pad == g.contains(61)) by {
        if g.contains(61) {
            let k = choose|k: int| 0 <= k < 4 && g[k] == 61;
            assert(g[k] == 61);
        }
        if g0 == 61 {
            assert(g[0] == 61);
        }
        if g1 == 61 {
            assert(g[1] == 61);
        }
        if g2 == 61 {
            assert(g[2] == 61);
        }
        if g3 == 61 {
            assert(g[3] == 61);
        }
    }
    if (has_pad && !last) || (g2 == 61 && g3 != 61) {
        return None;
    }
    let a = match b64_value_exec(g0) {
        Some(v) => v,
        None => return None,
    };
    let b = match b64_value_exec(g1) {
        Some(v) => v,
        None => return None,
    };
    let c = if g2 == 61 {
        0
    } else {
        match b64_value_exec(g2) {
            Some(v) => v,
            None => return None,
        }
    };
    let d = if g3 == 61 {
        0
    } else {
        match b64_value_exec(g3) {
            Some(v) => v,
            None => return None,
        }
    };
    if (g2 == 61 && b % 16 != 0) || (g3 == 61 && g2 != 61 && c % 4 != 0) {
        return None;
    }
    let bits: u32 = a * 262144 + b * 4096 + c * 64 + d;
    let mut out: Vec<u8> = Vec::new();
    out.push(((bits / 65536) % 256) as u8);
    if g2 != 61 {
        out.push(((bits / 256) % 256) as u8);
    }
    if g3 != 61 {
        out.push((bits % 256) as u8);
    }
    proof {
        let spec_bits = a as int * 262144 + b as int * 4096 + c as int * 64 + d as int;
        assert(bits as int == spec_bits);
        let expected = seq![((spec_bits / 65536) % 256) as u8] + (if g2 != 61 {
            seq![((spec_bits / 256) % 256) as u8]
        } else {
            Seq::<u8>::empty()
        }) + (if g3 != 61 {
            seq![(spec_bits % 256) as u8]
        } else {
            Seq::<u8>::empty()
        });
        assert(out@ =~= expected);
    }
    Some(out)
}

/// The bytes a Base64 text stands for, if it is canonical.
pub fn decode_base64(value: &str) -> (r: Option<Vec<u8>>)
    ensures
        r matches Some(v) ==> decode_spec(value.spec_bytes()) == Some(v@),
        r is None ==> decode_spec(value.spec_bytes()) is None,
{
    let s = value.as_bytes();
    if s.len() % 4 != 0 {
        return None;
    }
    let ghost sb = s@;
    let mut out: Vec<u8> = Vec::new();
    let mut i: usize = 0;
    assert(sb.skip(0) == sb);
    while i < s.len()
        invariant
            i <= s.len(),
            sb == s@,
            sb == value.spec_bytes(),
            s@.len() % 4 == 0,
            i % 4 == 0,
            decode_groups(sb) == match decode_groups(sb.skip(i as int)) {
                Some(rest) => Some(out@ + rest),
                None => None::<Seq<u8>>,
            },
        decreases s.len() - i,
    {
        let last = i + 4 == s.len();
        let r = decode_group_exec(s[i], s[i + 1], s[i + 2], s[i + 3], last);
        proof {
            lemma_groups_step(sb, i as int, out@);
        }
        match r {
            Some(g) => {
                extend_bytes(&mut out, &g);
            },
            None => {
                return None;
            },
        }
        i = i + 4;
    }
    assert(sb.skip(s@.len() as int) =~= Seq::<u8>::empty());
    assert(out@ + Seq::<u8>::empty() =~= out@);
    Some(out)
}

fn extend_bytes(out: &mut Vec<u8>, g: &Vec<u8>)
    ensures
        final(out)@ == old(out)@ + g@,
{
    let ghost before = out@;
    let mut k: usize = 0;
    while k < g.len()
        invariant
            k <= g.len(),
            out@ == before + g@.take(k as int),
        decreases g.len() - k,
    {
        out.push(g[k]);
        k = k + 1;
        assert(out@ =~= before + g@.take(k as int));
    }
    assert(g@.take(g@.len() as int) == g@);
}

proof fn lemma_groups_step(sb: Seq<u8>, i: int, done: Seq<u8>)
    requires
        0 <= i,
        i + 4 <= sb.len(),
        sb.len() % 4 == 0,
        i % 4 == 0,
    ensures
        ({
            let g = seq![sb[i], sb[i + 1], sb[i + 2], sb[i + 3]];
            let last = i + 4 == sb.len();
            &&& decode_group(g, last) is None ==> decode_groups(sb.skip(i)) is None
            &&& decode_group(g, last) matches Some(out) ==> match decode_groups(sb.skip(i)) {
                Some(rest) => decode_groups(sb.skip(i + 4)) matches Some(r2) && done + rest == (
                done + out) + r2,
                None => decode_groups(sb.skip(i + 4)) is None,
            }
        }),
{
    let t = sb.skip(i);
    assert(t.take(4) =~= seq![sb[i], sb[i + 1], sb[i + 2], sb[i + 3]]);
    assert(t.skip(4) =~= sb.skip(i + 4));
    assert(t.len() == sb.len() - i);
    match decode_group(t.take(4), t.len() == 4) {
        Some(out) => {
            match decode_groups(sb.skip(i + 4)) {
                Some(r2) => {
                    assert(done + (out + r2) =~= (done + out) + r2);
                },
                None => {},
            }
        },
        None => {},
    }
}

/// The bytes of an ASCII character sequence.
pub open spec fn char_bytes(s: Seq<char>) -> Seq<u8> {
    s.map_values(|c: char| c as u8)
}

proof fn lemma_char_value(x: int)
    requires
        0 <= x < 64,
    ensures
        b64_value(b64_char(x) as u8) == Some(x),
        b64_char(x) as u8 != 61,
        '\0' <= b64_char(x) <= '\u{7f}',
{
}

/// One group decodes back to its bytes.
proof fn lemma_group(b0: u8, b1: u8, b2: u8, n: int, last: bool)
    requires
        1 <= n <= 3,
        n < 2 ==> b1 == 0,
        n < 3 ==> b2 == 0,
        n < 3 ==> last,
    ensures
        ({
            let g = encode_group(b0 as int, b1 as int, b2 as int, n);
            &&& g.len() == 4
            &&& forall|k: int| 0 <= k < 4 ==> '\0' <= #[trigger] g[k] <= '\u{7f}'
            &&& decode_group(char_bytes(g), last) == Some(
                if n == 1 {
                    seq![b0]
                } else if n == 2 {
                    seq![b0, b1]
                } else {
                    seq![b0, b1, b2]
                },
            )
        }),
{
    reveal(encode_group);
    reveal(decode_group);
    lemma_group_digits(b0 as u32, b1 as u32, b2 as u32);
    let v = b0 as int * 65536 + b1 as int * 256 + b2 as int;
    lemma_char_value(v / 262144);
    lemma_char_value((v / 4096) % 64);
    lemma_char_value((v / 64) % 64);
    lemma_char_value(v % 64);
    let g = encode_group(b0 as int, b1 as int, b2 as int, n);
    let gb = char_bytes(g);
    assert(!gb.contains(61) || last) by {
        if !last {
            assert forall|k: int| 0 <= k < 4 implies gb[k] != 61 by {
                assert(gb[k] == g[k] as u8);
            }
        }
    }
    if n == 1 {
        assert(seq![((v / 65536) % 256) as u8] + Seq::<u8>::empty() + Seq::<u8>::empty() =~= seq![b0]);
    } else if n == 2 {
        assert(seq![((v / 65536) % 256) as u8] + seq![((v / 256) % 256) as u8] + Seq::<u8>::empty() =~= seq![b0, b1]);
    } else {
        assert(seq![((v / 65536) % 256) as u8] + seq![((v / 256) % 256) as u8] + seq![(v % 256) as u8] =~= seq![b0, b1, b2]);
    }
}

proof fn lemma_round_trip_bytes(b: Seq<u8>)
    ensures
        decode_groups(char_bytes(encode_spec(b))) == Some(b),
        encode_spec(b).len() % 4 == 0,
        b.len() > 0 ==> encode_spec(b).len() >= 4,
        forall|k: int| 0 <= k < encode_spec(b).len() ==> '\0' <= #[trigger] encode_spec(b)[k] <= '\u{7f}',
    decreases b.len(),
{
    let e = encode_spec(b);
    if b.len() == 0 {
        assert(char_bytes(e) =~= Seq::<u8>::empty());
        assert(b =~= Seq::<u8>::empty());
    } else {
        let n: int = if b.len() >= 3 { 3 } else { b.len() as int };
        let b1: u8 = if b.len() > 1 { b[1] } else { 0 };
        let b2: u8 = if b.len() > 2 { b[2] } else { 0 };
        let g = encode_group(b[0] as int, b1 as int, b2 as int, n);
        lemma_group(b[0], b1, b2, n, b.len() <= 3);
        let firsts = if n == 1 {
            seq![b[0]]
        } else if n == 2 {
            seq![b[0], b1]
        } else {
            seq![b[0], b1, b2]
        };
        let eb = char_bytes(e);
        if b.len() > 3 {
            let rest = encode_spec(b.skip(3));
            lemma_round_trip_bytes(b.skip(3));
            assert(e == g + rest);
            assert(eb.take(4) =~= char_bytes(g));
            assert(eb.skip(4) =~= char_bytes(rest));
            assert(firsts + b.skip(3) =~= b);
            assert(eb.len() > 4);
            assert(decode_groups(eb) == Some(firsts + b.skip(3)));
            assert forall|k: int| 0 <= k < e.len() implies '\0' <= #[trigger] e[k] <= '\u{7f}' by {
                if k < 4 {
                    assert(e[k] == g[k]);
                } else {
                    assert(e[k] == rest[k - 4]);
                }
            }
        } else {
            assert(e == g);
            assert(eb.take(4) =~= char_bytes(g));
            assert(eb.skip(4) =~= Seq::<u8>::empty());
            assert(firsts + Seq::<u8>::empty() =~= b);
            assert(eb.len() == 4);
            assert(decode_groups(eb.skip(4)) == Some(Seq::<u8>::empty()));
            assert(decode_group(eb.take(4), true) == Some(firsts));
            assert(decode_groups(eb) == Some(firsts + Seq::<u8>::empty()));
        }
    }
}

/// What the encoder writes, the decoder reads back: for every byte sequence
/// `b` and every string `s` holding its Base64 text, decoding `s` gives `b`.
pub proof fn base64_round_trip(b: Seq<u8>, s: &str)
    requires
        s@ == encode_spec(b),
    ensures
        decode_spec(s.spec_bytes()) == Some(b),
{
    lemma_round_trip_bytes(b);
    assert(vstd::string::is_ascii(s));
    vstd::string::is_ascii_spec_bytes(s);
    assert(s.spec_bytes() =~= char_bytes(s@));
}

proof fn lemma_value_char(c: u8)
    requires
        b64_value(c) is Some,
    ensures
        0 <= b64_value(c)->0 < 64,
        b64_char(b64_value(c)->0) as u8 == c,
{
}

proof fn lemma_bits_back(a: u32, b: u32, c: u32, d: u32)
    requires
        a < 64,
        b < 64,
        c < 64,
        d < 64,
    ensures
        ({
            let bits = a * 262144 + b * 4096 + c * 64 + d;
            let x0 = (bits / 65536) % 256;
            let x1 = (bits / 256) % 256;
            let x2 = bits % 256;
            &&& x0 * 65536 + x1 * 256 + x2 == bits
            &&& bits / 262144 == a
            &&& (bits / 4096) % 64 == b
            &&& (bits / 64) % 64 == c
            &&& bits % 64 == d
            &&& (c % 4 == 0 && d == 0) ==> x2 == 0
            &&& (b % 16 == 0 && c == 0 && d == 0) ==> x1 == 0 && x2 == 0
        }),
{
    assert({
        let bits = a * 262144 + b * 4096 + c * 64 + d;
        let x0 = (bits / 65536) % 256;
        let x1 = (bits / 256) % 256;
        let x2 = bits % 256;
        &&& x0 * 65536 + x1 * 256 + x2 == bits
        &&& bits / 262144 == a
        &&& (bits / 4096) % 64 == b
        &&& (bits / 64) % 64 == c
        &&& bits % 64 == d
        &&& (c % 4 == 0 && d == 0) ==> x2 == 0
        &&& (b % 16 == 0 && c == 0 && d == 0) ==> x1 == 0 && x2 == 0
    }) by (bit_vector)
        requires
            a < 64,
            b < 64,
            c < 64,
            d < 64,
    ;
}

/// The group a decoded group of bytes encodes to.
pub open spec fn regroup(out: Seq<u8>) -> Seq<char> {
    encode_group(
        out[0] as int,
        if out.len() > 1 {
            out[1] as int
        } else {
            0
        },
        if out.len() > 2 {
            out[2] as int
        } else {
            0
        },
        out.len() as int,
    )
}

/// A group that decodes encodes back to itself; it gives one to three
/// bytes, three unless it is the last.
proof fn lemma_group_canonical(g: Seq<u8>, last: bool)
    requires
        g.len() == 4,
        decode_group(g, last) is Some,
    ensures
        1 <= (decode_group(g, last)->0).len() <= 3,
        !last ==> (decode_group(g, last)->0).len() == 3,
        char_bytes(regroup(decode_group(g, last)->0)) == g,
{
    reveal(decode_group);
    reveal(encode_group);
    let out = decode_group(g, last)->0;
    let pad2 = g[2] == 61;
    let pad3 = g[3] == 61;
    lemma_value_char(g[0]);
    lemma_value_char(g[1]);
    if !pad2 {
        lemma_value_char(g[2]);
    }
    if !pad3 {
        lemma_value_char(g[3]);
    }
    let a = b64_value(g[0])->0;
    let b = b64_value(g[1])->0;
    let c: int = if pad2 { 0 } else { b64_value(g[2])->0 };
    let d: int = if pad3 { 0 } else { b64_value(g[3])->0 };
    lemma_bits_back(a as u32, b as u32, c as u32, d as u32);
    if !last {
        assert(!pad2 && !pad3) by {
            if pad2 {
                assert(g[2] == 61);
            }
            if pad3 {
                assert(g[3] == 61);
            }
        }
    }
    let e = regroup(out);
    let eb = char_bytes(e);
    assert(eb =~= g) by {
        assert(eb[0] == g[0]);
        assert(eb[1] == g[1]);
        if pad2 {
            assert(e[2] == '=');
            assert(eb[2] == g[2]);
        } else {
            assert(eb[2] == g[2]);
        }
        if pad3 {
            assert(e[3] == '=');
            assert(eb[3] == g[3]);
        } else {
            assert(eb[3] == g[3]);
        }
    }
}

proof fn lemma_char_bytes_add(a: Seq<char>, b: Seq<char>)
    ensures
        char_bytes(a + b) == char_bytes(a) + char_bytes(b),
{
    assert(char_bytes(a + b) =~= char_bytes(a) + char_bytes(b));
}

/// Whole groups that decode are the encoding of what they decode to.
proof fn lemma_groups_canonical(s: Seq<u8>)
    requires
        s.len() % 4 == 0,
        decode_groups(s) is Some,
    ensures
        char_bytes(encode_spec(decode_groups(s)->0)) == s,
        s.len() > 0 ==> (decode_groups(s)->0).len() > 0,
    decreases s.len(),
{
    let v = decode_groups(s)->0;
    if s.len() == 0 {
        assert(v =~= Seq::<u8>::empty());
        assert(char_bytes(encode_spec(v)) =~= s);
    } else {
        let g = s.take(4);
        let last = s.len() == 4;
        lemma_group_canonical(g, last);
        let out = decode_group(g, last)->0;
        let rest = decode_groups(s.skip(4))->0;
        assert(v == out + rest);
        assert(s =~= g + s.skip(4));
        if last {
            assert(s.skip(4).len() == 0);
            assert(rest =~= Seq::<u8>::empty());
            assert(v =~= out);
            assert(encode_spec(v) == regroup(out));
        } else {
            lemma_groups_canonical(s.skip(4));
            assert(v.len() > 3);
            assert(v.skip(3) =~= rest);
            assert(v[0] == out[0] && v[1] == out[1] && v[2] == out[2]);
            assert(encode_spec(v) == regroup(out) + encode_spec(rest));
            lemma_char_bytes_add(regroup(out), encode_spec(rest));
        }
    }
}

/// Only the canonical text of a byte sequence decodes: whenever decoding
/// `s` gives bytes `v`, `s` is exactly the Base64 text of `v`.
pub proof fn base64_only_canonical_text_decodes(s: &str, v: Seq<u8>)
    requires
        decode_spec(s.spec_bytes()) == Some(v),
    ensures
        s@ == encode_spec(v),
{
    lemma_groups_canonical(s.spec_bytes());
    lemma_round_trip_bytes(v);
    let e = encode_spec(v);
    assert(vstd::utf8::is_ascii_chars(e));
    vstd::utf8::is_ascii_chars_encode_utf8(e);
    assert(vstd::utf8::encode_utf8(e) =~= char_bytes(e));
    vstd::utf8::encode_utf8_decode_utf8(e);
    vstd::utf8::encode_utf8_decode_utf8(s@);
}

} // verus!
