//! Standard base64 encoding (RFC 4648 alphabet, `=` padding) of binary payloads.

use vstd::prelude::*;

verus! {

/// The base64 digit for a 6-bit value `v`: `A`-`Z`, `a`-`z`, `0`-`9`, `+`, `/`.
pub open spec fn b64_digit(v: int) -> char {
    if v < 26 {
        (65 + v) as char
    } else if v < 52 {
        (97 + (v - 26)) as char
    } else if v < 62 {
        (48 + (v - 52)) as char
    } else if v == 62 {
        '+'
    } else {
        '/'
    }
}

/// Whether `c` is one of the 64 base64 digits.
pub open spec fn is_b64_digit(c: char) -> bool {
    exists|v: int| 0 <= v < 64 && b64_digit(v) == c
}

/// The four characters that encode one group of one to three bytes; missing
/// bytes count as zero and each missing byte turns one trailing character into `=`.
pub open spec fn encode_group(g: Seq<u8>) -> Seq<char> {
    let b0 = g[0] as int;
    let b1 = if g.len() > 1 {
        g[1] as int
    } else {
        0
    };
    let b2 = if g.len() > 2 {
        g[2] as int
    } else {
        0
    };
    seq![
        b64_digit(b0 / 4),
        b64_digit((b0 % 4) * 16 + b1 / 16),
        if g.len() > 1 {
            b64_digit((b1 % 16) * 4 + b2 / 64)
        } else {
            '='
        },
        if g.len() > 2 {
            b64_digit(b2 % 64)
        } else {
            '='
        },
    ]
}

/// The base64 encoding of `data`: its groups of three bytes, taken from the
/// front, each encoded by `encode_group`; the last group may be shorter.
pub open spec fn base64(data: Seq<u8>) -> Seq<char>
    decreases data.len(),
{
    if data.len() == 0 {
        Seq::empty()
    } else if data.len() <= 3 {
        encode_group(data)
    } else {
        encode_group(data.take(3)) + base64(data.skip(3))
    }
}

/// Appends `c` to `s`, through `String::push`.
#[verifier::external_body]
pub(crate) fn push_char(s: &mut String, c: char)
    ensures
        final(s)@ == old(s)@.push(c),
{
    s.push(c);
}

fn digit(v: u32) -> (c: char)
    requires
        v < 64,
    ensures
        c == b64_digit(v as int),
{
    if v < 26 {
        (65u8 + v as u8) as char
    } else if v < 52 {
        (97u8 + (v - 26) as u8) as char
    } else if v < 62 {
        (48u8 + (v - 52) as u8) as char
    } else if v == 62 {
        '+'
    } else {
        '/'
    }
}

proof fn lemma_group_bits(b0: u32, b1: u32, b2: u32)
    requires
        b0 < 256,
        b1 < 256,
        b2 < 256,
    ensures
        ((b0 << 16u32) | (b1 << 8u32) | b2) >> 18u32 & 0x3f == b0 / 4,
        ((b0 << 16u32) | (b1 << 8u32) | b2) >> 12u32 & 0x3f == (b0 % 4) * 16 + b1 / 16,
        ((b0 << 16u32) | (b1 << 8u32) | b2) >> 6u32 & 0x3f == (b1 % 16) * 4 + b2 / 64,
        ((b0 << 16u32) | (b1 << 8u32) | b2) & 0x3f == b2 % 64,
{
    assert(((b0 << 16u32) | (b1 << 8u32) | b2) >> 18u32 & 0x3f == b0 / 4) by (bit_vector)
        requires
            b0 < 256,
            b1 < 256,
            b2 < 256,
    ;
    assert(((b0 << 16u32) | (b1 << 8u32) | b2) >> 12u32 & 0x3f == (b0 % 4) * 16 + b1 / 16)
        by (bit_vector)
        requires
            b0 < 256,
            b1 < 256,
            b2 < 256,
    ;
    assert(((b0 << 16u32) | (b1 << 8u32) | b2) >> 6u32 & 0x3f == (b1 % 16) * 4 + b2 / 64)
        by (bit_vector)
        requires
            b0 < 256,
            b1 < 256,
            b2 < 256,
    ;
    assert(((b0 << 16u32) | (b1 << 8u32) | b2) & 0x3f == b2 % 64) by (bit_vector)
        requires
            b0 < 256,
            b1 < 256,
            b2 < 256,
    ;
}

/// Encoding a byte string whose length is a multiple of three, followed by any
/// other byte string, gives the two encodings one after the other.
pub proof fn lemma_base64_concat(a: Seq<u8>, b: Seq<u8>)
    requires
        a.len() % 3 == 0,
    ensures
        base64(a + b) == base64(a) + base64(b),
    decreases a.len(),
{
    if a.len() == 0 {
        assert(a + b =~= b);
    } else {
        let ab = a + b;
        assert(ab.take(3) =~= a.take(3));
        assert(ab.skip(3) =~= a.skip(3) + b);
        lemma_base64_concat(a.skip(3), b);
        if a.len() == 3 {
            assert(a.skip(3) =~= Seq::<u8>::empty());
            assert(a.take(3) =~= a);
            assert(a.skip(3) + b =~= b);
            if b.len() == 0 {
                assert(ab =~= a);
            }
        }
        assert(base64(ab) == encode_group(a.take(3)) + base64(a.skip(3) + b));
        assert(base64(a) == encode_group(a.take(3)) + base64(a.skip(3)));
    }
}

/// The encoding of `n` bytes has `4 * ceil(n / 3)` characters.
pub proof fn lemma_base64_len(data: Seq<u8>)
    ensures
        base64(data).len() == 4 * ((data.len() + 2) / 3),
    decreases data.len(),
{
    if data.len() > 3 {
        lemma_base64_len(data.skip(3));
    }
}

proof fn lemma_digit_injective(v: int, w: int)
    requires
        0 <= v < 64,
        0 <= w < 64,
    ensures
        b64_digit(v) != '=',
        b64_digit(v) == b64_digit(w) ==> v == w,
{
    assert(((65 + v) as char) as int == 65 + v) by {
        if v < 26 {
        }
    }
    assert('=' as int == 61);
    if b64_digit(v) == b64_digit(w) {
        assert(b64_digit(v) as int == b64_digit(w) as int);
    }
}

proof fn lemma_group_digits(g: Seq<u8>)
    requires
        1 <= g.len() <= 3,
    ensures
        forall|k: int|
            0 <= k < 4 ==> is_b64_digit(#[trigger] encode_group(g)[k]) || encode_group(g)[k]
                == '=',
{
    let b0 = g[0] as int;
    let b1 = if g.len() > 1 {
        g[1] as int
    } else {
        0
    };
    let b2 = if g.len() > 2 {
        g[2] as int
    } else {
        0
    };
    let e = encode_group(g);
    assert(is_b64_digit(e[0])) by {
        assert(0 <= b0 / 4 < 64 && b64_digit(b0 / 4) == e[0]);
    }
    assert(is_b64_digit(e[1])) by {
        assert(0 <= (b0 % 4) * 16 + b1 / 16 < 64 && b64_digit((b0 % 4) * 16 + b1 / 16) == e[1]);
    }
    if g.len() > 1 {
        assert(is_b64_digit(e[2])) by {
            assert(0 <= (b1 % 16) * 4 + b2 / 64 < 64 && b64_digit((b1 % 16) * 4 + b2 / 64) == e[2]);
        }
    }
    if g.len() > 2 {
        assert(is_b64_digit(e[3])) by {
            assert(0 <= b2 % 64 < 64 && b64_digit(b2 % 64) == e[3]);
        }
    }
}

/// Every character of an encoding is a base64 digit or the padding character `=`.
pub proof fn lemma_base64_alphabet(data: Seq<u8>)
    ensures
        forall|k: int|
            0 <= k < base64(data).len() ==> is_b64_digit(#[trigger] base64(data)[k])
                || base64(data)[k] == '=',
    decreases data.len(),
{
    if data.len() == 0 {
    } else if data.len() <= 3 {
        lemma_group_digits(data);
    } else {
        lemma_group_digits(data.take(3));
        lemma_base64_alphabet(data.skip(3));
        let e = encode_group(data.take(3));
        let r = base64(data.skip(3));
        assert forall|k: int|
            0 <= k < base64(data).len() implies is_b64_digit(#[trigger] base64(data)[k])
            || base64(data)[k] == '=' by {
            if k < 4 {
                assert(base64(data)[k] == e[k]);
            } else {
                assert(base64(data)[k] == r[k - 4]);
            }
        }
    }
}

proof fn lemma_group_injective(g: Seq<u8>, h: Seq<u8>)
    requires
        1 <= g.len() <= 3,
        1 <= h.len() <= 3,
        encode_group(g) == encode_group(h),
    ensures
        g == h,
{
    let eg = encode_group(g);
    let eh = encode_group(h);
    let g0 = g[0] as int;
    let g1 = if g.len() > 1 {
        g[1] as int
    } else {
        0
    };
    let g2 = if g.len() > 2 {
        g[2] as int
    } else {
        0
    };
    let h0 = h[0] as int;
    let h1 = if h.len() > 1 {
        h[1] as int
    } else {
        0
    };
    let h2 = if h.len() > 2 {
        h[2] as int
    } else {
        0
    };
    assert(eg[0] == eh[0]);
    assert(eg[1] == eh[1]);
    assert(eg[2] == eh[2]);
    assert(eg[3] == eh[3]);
    lemma_digit_injective(g0 / 4, h0 / 4);
    lemma_digit_injective((g0 % 4) * 16 + g1 / 16, (h0 % 4) * 16 + h1 / 16);
    lemma_digit_injective((g1 % 16) * 4 + g2 / 64, (h1 % 16) * 4 + h2 / 64);
    lemma_digit_injective(g2 % 64, h2 % 64);
    assert(g.len() > 1 <==> h.len() > 1);
    assert(g.len() > 2 <==> h.len() > 2);
    assert(g0 == h0);
    if g.len() > 1 {
        assert(g1 == h1);
    }
    if g.len() > 2 {
        assert(g2 == h2);
    }
    assert(g =~= h);
}

/// Base64 loses nothing: distinct byte strings have distinct encodings.
pub proof fn lemma_base64_injective(a: Seq<u8>, b: Seq<u8>)
    requires
        base64(a) == base64(b),
    ensures
        a == b,
    decreases a.len(),
{
    lemma_base64_len(a);
    lemma_base64_len(b);
    if a.len() == 0 {
        assert(b.len() == 0);
        assert(a =~= b);
    } else if a.len() <= 3 {
        assert(b.len() <= 3);
        lemma_group_injective(a, b);
    } else {
        assert(b.len() > 3);
        let ea = base64(a);
        let eb = base64(b);
        assert(encode_group(a.take(3)) =~= ea.take(4));
        assert(encode_group(b.take(3)) =~= eb.take(4));
        assert(base64(a.skip(3)) =~= ea.skip(4));
        assert(base64(b.skip(3)) =~= eb.skip(4));
        lemma_group_injective(a.take(3), b.take(3));
        lemma_base64_injective(a.skip(3), b.skip(3));
        assert(a =~= a.take(3) + a.skip(3));
        assert(b =~= b.take(3) + b.skip(3));
    }
}

/// The 6-bit value of a base64 digit: `A`-`Z` are 0-25, `a`-`z` 26-51, `0`-`9`
/// 52-61, `+` 62 and `/` 63.
pub open spec fn b64_value(c: char) -> int {
    let x = c as int;
    if 65 <= x <= 90 {
        x - 65
    } else if 97 <= x <= 122 {
        x - 71
    } else if 48 <= x <= 57 {
        x + 4
    } else if c == '+' {
        62
    } else {
        63
    }
}

/// The bytes that one group of four base64 characters stands for: three, or
/// fewer where the group ends in `=` padding.
pub open spec fn decode_group(q: Seq<char>) -> Seq<u8> {
    let v0 = b64_value(q[0]);
    let v1 = b64_value(q[1]);
    let v2 = b64_value(q[2]);
    let v3 = b64_value(q[3]);
    let b0 = (v0 * 4 + v1 / 16) as u8;
    let b1 = ((v1 % 16) * 16 + v2 / 4) as u8;
    let b2 = ((v2 % 4) * 64 + v3) as u8;
    if q[2] == '=' {
        seq![b0]
    } else if q[3] == '=' {
        seq![b0, b1]
    } else {
        seq![b0, b1, b2]
    }
}

/// Standard base64 decoding of a text made of whole groups of four characters.
pub open spec fn base64_decode(text: Seq<char>) -> Seq<u8>
    decreases text.len(),
{
    if text.len() < 4 {
        Seq::empty()
    } else {
        decode_group(text.take(4)) + base64_decode(text.skip(4))
    }
}

proof fn lemma_digit_value(v: int)
    requires
        0 <= v < 64,
    ensures
        b64_value(b64_digit(v)) == v,
{
    if v < 26 {
        assert(((65 + v) as char) as int == 65 + v);
    } else if v < 52 {
        assert(((97 + (v - 26)) as char) as int == 97 + (v - 26));
    } else if v < 62 {
        assert(((48 + (v - 52)) as char) as int == 48 + (v - 52));
    } else {
        assert('+' as int == 43);
        assert('/' as int == 47);
    }
}

proof fn lemma_group_roundtrip(g: Seq<u8>)
    requires
        1 <= g.len() <= 3,
    ensures
        decode_group(encode_group(g)) == g,
{
    let b0 = g[0] as int;
    let b1 = if g.len() > 1 {
        g[1] as int
    } else {
        0
    };
    let b2 = if g.len() > 2 {
        g[2] as int
    } else {
        0
    };
    let e = encode_group(g);
    lemma_digit_value(b0 / 4);
    lemma_digit_value((b0 % 4) * 16 + b1 / 16);
    lemma_digit_value((b1 % 16) * 4 + b2 / 64);
    lemma_digit_value(b2 % 64);
    lemma_digit_injective((b1 % 16) * 4 + b2 / 64, 0);
    lemma_digit_injective(b2 % 64, 0);
    assert(b64_value(e[0]) == b0 / 4);
    assert(b64_value(e[1]) == (b0 % 4) * 16 + b1 / 16);
    assert(((b0 % 4) * 16 + b1 / 16) / 16 == b0 % 4);
    assert(((b0 % 4) * 16 + b1 / 16) % 16 == b1 / 16);
    assert((b0 / 4) * 4 + b0 % 4 == b0);
    let d = decode_group(e);
    assert(d[0] == g[0]);
    if g.len() > 1 {
        assert(b64_value(e[2]) == (b1 % 16) * 4 + b2 / 64);
        assert(((b1 % 16) * 4 + b2 / 64) / 4 == b1 % 16);
        assert(((b1 % 16) * 4 + b2 / 64) % 4 == b2 / 64);
        assert((b1 / 16) * 16 + b1 % 16 == b1);
        assert(d[1] == g[1]);
    }
    if g.len() > 2 {
        assert(b64_value(e[3]) == b2 % 64);
        assert((b2 / 64) * 64 + b2 % 64 == b2);
        assert(d[2] == g[2]);
    }
    assert(d =~= g);
}

/// Decoding an encoding gives back the encoded bytes.
pub proof fn lemma_base64_roundtrip(data: Seq<u8>)
    ensures
        base64_decode(base64(data)) == data,
    decreases data.len(),
{
    if data.len() == 0 {
    } else if data.len() <= 3 {
        let e = encode_group(data);
        lemma_group_roundtrip(data);
        assert(e.take(4) =~= e);
        assert(e.skip(4) =~= Seq::<char>::empty());
        assert(base64_decode(e.skip(4)) =~= Seq::<u8>::empty());
        assert(decode_group(e) + Seq::<u8>::empty() =~= data);
    } else {
        let e = encode_group(data.take(3));
        let rest = base64(data.skip(3));
        lemma_group_roundtrip(data.take(3));
        lemma_base64_roundtrip(data.skip(3));
        assert((e + rest).take(4) =~= e);
        assert((e + rest).skip(4) =~= rest);
        assert(data.take(3) + data.skip(3) =~= data);
    }
}

/// Encodes `data` in base64 with the standard alphabet and `=` padding.
pub fn base64_encode(data: &[u8]) -> (r: String)
    ensures
        r@ == base64(data@),
{
    let mut out = String::new();
    let n = data.len();
    let mut i: usize = 0;
    while i < n
        invariant
            n == data@.len(),
            i <= n,
            i % 3 == 0 || i == n,
            out@ == base64(data@.take(i as int)),
        decreases n - i,
    {
        let rest = n - i;
        let len: usize = if rest >= 3 {
            3
        } else {
            rest
        };
        let b0 = data[i] as u32;
        let b1 = if len > 1 {
            data[i + 1] as u32
        } else {
            0
        };
        let b2 = if len > 2 {
            data[i + 2] as u32
        } else {
            0
        };
        let combined: u32 = (b0 << 16u32) | (b1 << 8u32) | b2;
        proof {
            lemma_group_bits(b0, b1, b2);
        }
        let ghost before = out@;
        push_char(&mut out, digit((combined >> 18u32) & 0x3f));
        push_char(&mut out, digit((combined >> 12u32) & 0x3f));
        if len > 1 {
            push_char(&mut out, digit((combined >> 6u32) & 0x3f));
        } else {
            push_char(&mut out, '=');
        }
        if len > 2 {
            push_char(&mut out, digit(combined & 0x3f));
        } else {
            push_char(&mut out, '=');
        }
        proof {
            let g = data@.subrange(i as int, i + len);
            assert(out@ =~= before + encode_group(g));
            assert(data@.take(i + len) =~= data@.take(i as int) + g);
            lemma_base64_concat(data@.take(i as int), g);
            assert(base64(g) == encode_group(g));
        }
        i = i + len;
    }
    proof {
        assert(data@.take(n as int) =~= data@);
    }
    out
}

} // verus!
