//! Standard Base64 (RFC 4648 alphabet, `=` padding) and the JPEG data URL
//! built from it.
use vstd::prelude::*;
use crate::text::concat;

verus! {

/// The symbol for the 6-bit value `i`: `A-Z`, `a-z`, `0-9`, `+`, `/`.
pub open spec fn b64_symbol(i: int) -> char {
    if i < 26 {
        ((65 + i) as u8) as char
    } else if i < 52 {
        ((97 + i - 26) as u8) as char
    } else if i < 62 {
        ((48 + i - 52) as u8) as char
    } else if i == 62 {
        '+'
    } else {
        '/'
    }
}

/// The four characters for the group `b0 b1 b2`, of which the first `len`
/// bytes are data (the rest are zero and show as `=`).
pub open spec fn b64_group(b0: u8, b1: u8, b2: u8, len: int) -> Seq<char> {
    seq![
        b64_symbol(b0 as int / 4),
        b64_symbol((b0 as int % 4) * 16 + b1 as int / 16),
        if len > 1 {
            b64_symbol((b1 as int % 16) * 4 + b2 as int / 64)
        } else {
            '='
        },
        if len > 2 {
            b64_symbol(b2 as int % 64)
        } else {
            '='
        },
    ]
}

/// The Base64 text of `d`, three bytes to four characters, padded with `=`.
pub open spec fn base64(d: Seq<u8>) -> Seq<char>
    decreases d.len(),
{
    if d.len() == 0 {
        Seq::<char>::empty()
    } else if d.len() == 1 {
        b64_group(d[0], 0, 0, 1)
    } else if d.len() == 2 {
        b64_group(d[0], d[1], 0, 2)
    } else {
        b64_group(d[0], d[1], d[2], 3) + base64(d.skip(3))
    }
}

/// Encoding a whole number of groups and then the rest gives the encoding of
/// the whole.
pub proof fn lemma_base64_concat(a: Seq<u8>, b: Seq<u8>)
    requires
        a.len() % 3 == 0,
    ensures
        base64(a + b) == base64(a) + base64(b),
    decreases a.len(),
{
    if a.len() == 0 {
        assert(a + b =~= b);
        assert(base64(a) + base64(b) =~= base64(b));
    } else {
        lemma_base64_concat(a.skip(3), b);
        assert((a + b).skip(3) =~= a.skip(3) + b);
        assert(b64_group(a[0], a[1], a[2], 3) + (base64(a.skip(3)) + base64(b)) =~= (b64_group(
            a[0],
            a[1],
            a[2],
            3,
        ) + base64(a.skip(3))) + base64(b));
    }
}

/// Four characters for every started group of three bytes.
pub proof fn lemma_base64_len(d: Seq<u8>)
    ensures
        base64(d).len() == 4 * ((d.len() + 2) / 3),
    decreases d.len(),
{
    if d.len() >= 3 {
        lemma_base64_len(d.skip(3));
    }
}

/// The 6-bit value of a Base64 symbol.
pub open spec fn b64_value(c: char) -> int {
    if 'A' <= c && c <= 'Z' {
        c as int - 65
    } else if 'a' <= c && c <= 'z' {
        c as int - 97 + 26
    } else if '0' <= c && c <= '9' {
        c as int - 48 + 52
    } else if c == '+' {
        62
    } else {
        63
    }
}

/// Reading four characters back into bytes.
pub open spec fn b64_ungroup(g: Seq<char>) -> Seq<u8> {
    let v0 = b64_value(g[0]);
    let v1 = b64_value(g[1]);
    let v2 = b64_value(g[2]);
    let v3 = b64_value(g[3]);
    let b0 = (v0 * 4 + v1 / 16) as u8;
    let b1 = ((v1 % 16) * 16 + v2 / 4) as u8;
    let b2 = ((v2 % 4) * 64 + v3) as u8;
    if g[2] == '=' {
        seq![b0]
    } else if g[3] == '=' {
        seq![b0, b1]
    } else {
        seq![b0, b1, b2]
    }
}

/// Decoding of Base64 text, group by group.
pub open spec fn base64_decode(t: Seq<char>) -> Seq<u8>
    decreases t.len(),
{
    if t.len() < 4 {
        Seq::<u8>::empty()
    } else {
        b64_ungroup(t.take(4)) + base64_decode(t.skip(4))
    }
}

proof fn lemma_symbol_value(i: int)
    requires
        0 <= i < 64,
    ensures
        b64_value(b64_symbol(i)) == i,
        b64_symbol(i) != '=',
{
}

proof fn lemma_group_roundtrip(b0: u8, b1: u8, b2: u8, len: int)
    requires
        1 <= len <= 3,
        len < 2 ==> b1 == 0,
        len < 3 ==> b2 == 0,
    ensures
        b64_ungroup(b64_group(b0, b1, b2, len)) == (if len == 1 {
            seq![b0]
        } else if len == 2 {
            seq![b0, b1]
        } else {
            seq![b0, b1, b2]
        }),
{
    let x0 = b0 as int;
    let x1 = b1 as int;
    let x2 = b2 as int;
    lemma_symbol_value(x0 / 4);
    lemma_symbol_value((x0 % 4) * 16 + x1 / 16);
    lemma_symbol_value((x1 % 16) * 4 + x2 / 64);
    lemma_symbol_value(x2 % 64);
    let g = b64_group(b0, b1, b2, len);
    assert((x0 / 4) * 4 + ((x0 % 4) * 16 + x1 / 16) / 16 == x0) by (nonlinear_arith)
        requires
            0 <= x0 < 256,
            0 <= x1 < 256,
    ;
    assert((((x0 % 4) * 16 + x1 / 16) % 16) * 16 + ((x1 % 16) * 4 + x2 / 64) / 4 == x1)
        by (nonlinear_arith)
        requires
            0 <= x0 < 256,
            0 <= x1 < 256,
            0 <= x2 < 256,
    ;
    assert((((x1 % 16) * 4 + x2 / 64) % 4) * 64 + x2 % 64 == x2) by (nonlinear_arith)
        requires
            0 <= x1 < 256,
            0 <= x2 < 256,
    ;
    if len == 1 {
        assert(b64_ungroup(g) =~= seq![b0]);
    } else if len == 2 {
        assert(b64_ungroup(g) =~= seq![b0, b1]);
    } else {
        assert(b64_ungroup(g) =~= seq![b0, b1, b2]);
    }
}

/// Decoding gives back the encoded bytes: the encoding loses nothing.
pub proof fn lemma_base64_roundtrip(d: Seq<u8>)
    ensures
        base64_decode(base64(d)) == d,
    decreases d.len(),
{
    let t = base64(d);
    if d.len() == 0 {
    } else if d.len() <= 2 {
        if d.len() == 1 {
            lemma_group_roundtrip(d[0], 0, 0, 1);
            assert(seq![d[0]] + Seq::<u8>::empty() =~= d);
        } else {
            lemma_group_roundtrip(d[0], d[1], 0, 2);
            assert(seq![d[0], d[1]] + Seq::<u8>::empty() =~= d);
        }
        assert(t.skip(4) =~= Seq::<char>::empty());
        assert(t.take(4) =~= t);
        assert(base64_decode(t) == b64_ungroup(t.take(4)) + base64_decode(t.skip(4)));
    } else {
        lemma_group_roundtrip(d[0], d[1], d[2], 3);
        lemma_base64_roundtrip(d.skip(3));
        let g = b64_group(d[0], d[1], d[2], 3);
        assert(t == g + base64(d.skip(3)));
        assert(t.take(4) =~= g);
        assert(t.skip(4) =~= base64(d.skip(3)));
        assert(base64_decode(t) == b64_ungroup(t.take(4)) + base64_decode(t.skip(4)));
        assert(seq![d[0], d[1], d[2]] + d.skip(3) =~= d);
    }
}

/// Two byte strings with the same Base64 text are equal.
pub proof fn lemma_base64_injective(a: Seq<u8>, b: Seq<u8>)
    requires
        base64(a) == base64(b),
    ensures
        a == b,
{
    lemma_base64_roundtrip(a);
    lemma_base64_roundtrip(b);
}

/// Every character is a Base64 symbol or `=`, and `=` appears exactly in the
/// last `(3 - n % 3) % 3` places.
pub proof fn lemma_base64_alphabet(d: Seq<u8>)
    ensures
        forall|k: int|
            0 <= k < base64(d).len() ==> (#[trigger] base64(d)[k] == '=' <==> k
                >= base64(d).len() - (3 - d.len() % 3) % 3),
        forall|k: int|
            0 <= k < base64(d).len() && base64(d)[k] != '=' ==> exists|i: int|
                0 <= i < 64 && #[trigger] b64_symbol(i) == base64(d)[k],
    decreases d.len(),
{
    lemma_base64_len(d);
    if d.len() == 0 {
    } else if d.len() <= 2 {
        let x0 = d[0] as int;
        let x1 = if d.len() > 1 { d[1] as int } else { 0 };
        lemma_symbol_value(x0 / 4);
        lemma_symbol_value((x0 % 4) * 16 + x1 / 16);
        lemma_symbol_value((x1 % 16) * 4);
    } else {
        lemma_base64_alphabet(d.skip(3));
        lemma_base64_len(d.skip(3));
        let x0 = d[0] as int;
        let x1 = d[1] as int;
        let x2 = d[2] as int;
        lemma_symbol_value(x0 / 4);
        lemma_symbol_value((x0 % 4) * 16 + x1 / 16);
        lemma_symbol_value((x1 % 16) * 4 + x2 / 64);
        lemma_symbol_value(x2 % 64);
        let g = b64_group(d[0], d[1], d[2], 3);
        let r = base64(d.skip(3));
        assert forall|k: int| 0 <= k < base64(d).len() implies (#[trigger] base64(d)[k] == '='
            <==> k >= base64(d).len() - (3 - d.len() % 3) % 3) by {
            if k >= 4 {
                assert(base64(d)[k] == r[k - 4]);
            }
        }
        assert forall|k: int| 0 <= k < base64(d).len() && base64(d)[k] != '=' implies exists|i: int|
            0 <= i < 64 && #[trigger] b64_symbol(i) == base64(d)[k] by {
            if k >= 4 {
                assert(base64(d)[k] == r[k - 4]);
            } else if k == 0 {
                assert(b64_symbol(x0 / 4) == base64(d)[k]);
            } else if k == 1 {
                assert(b64_symbol((x0 % 4) * 16 + x1 / 16) == base64(d)[k]);
            } else if k == 2 {
                assert(b64_symbol((x1 % 16) * 4 + x2 / 64) == base64(d)[k]);
            } else {
                assert(b64_symbol(x2 % 64) == base64(d)[k]);
            }
        }
    }
}

/// What `encode_base64` gives for `d`: text that decodes back to `d`,
/// `4 * ceil(n / 3)` characters long, with `=` exactly in the last
/// `(3 - n % 3) % 3` places and Base64 symbols everywhere else.
pub proof fn law_encode_base64(d: Seq<u8>)
    ensures
        base64_decode(base64(d)) == d,
        base64(d).len() == 4 * ((d.len() + 2) / 3),
        forall|k: int|
            0 <= k < base64(d).len() ==> (#[trigger] base64(d)[k] == '=' <==> k
                >= base64(d).len() - (3 - d.len() % 3) % 3),
        forall|k: int|
            0 <= k < base64(d).len() && base64(d)[k] != '=' ==> exists|i: int|
                0 <= i < 64 && #[trigger] b64_symbol(i) == base64(d)[k],
{
    lemma_base64_roundtrip(d);
    lemma_base64_len(d);
    lemma_base64_alphabet(d);
}

/// The character for a 6-bit value.
fn symbol(i: u32) -> (c: char)
    requires
        i < 64,
    ensures
        c == b64_symbol(i as int),
{
    if i < 26 {
        (65u8 + i as u8) as char
    } else if i < 52 {
        (97u8 + (i - 26) as u8) as char
    } else if i < 62 {
        (48u8 + (i - 52) as u8) as char
    } else if i == 62 {
        '+'
    } else {
        '/'
    }
}

proof fn lemma_group_bits(b0: u32, b1: u32, b2: u32)
    requires
        b0 < 256,
        b1 < 256,
        b2 < 256,
    ensures
        ((b0 << 16u32 | b1 << 8u32 | b2) >> 18u32) & 63u32 == b0 / 4,
        ((b0 << 16u32 | b1 << 8u32 | b2) >> 12u32) & 63u32 == (b0 % 4) * 16 + b1 / 16,
        ((b0 << 16u32 | b1 << 8u32 | b2) >> 6u32) & 63u32 == (b1 % 16) * 4 + b2 / 64,
        (b0 << 16u32 | b1 << 8u32 | b2) & 63u32 == b2 % 64,
{
    assert(((b0 << 16u32 | b1 << 8u32 | b2) >> 18u32) & 63u32 == b0 / 4) by (bit_vector)
        requires
            b0 < 256,
            b1 < 256,
            b2 < 256,
    ;
    assert(((b0 << 16u32 | b1 << 8u32 | b2) >> 12u32) & 63u32 == (b0 % 4) * 16 + b1 / 16)
        by (bit_vector)
        requires
            b0 < 256,
            b1 < 256,
            b2 < 256,
    ;
    assert(((b0 << 16u32 | b1 << 8u32 | b2) >> 6u32) & 63u32 == (b1 % 16) * 4 + b2 / 64)
        by (bit_vector)
        requires
            b0 < 256,
            b1 < 256,
            b2 < 256,
    ;
    assert((b0 << 16u32 | b1 << 8u32 | b2) & 63u32 == b2 % 64) by (bit_vector)
        requires
            b0 < 256,
            b1 < 256,
            b2 < 256,
    ;
}

/// Base64 text of `data`.
#[verifier::spinoff_prover]
#[verifier::rlimit(40)]
pub fn encode_base64(data: &[u8]) -> (out: String)
    ensures
        out@ == base64(data@),
{
    let n = data.len();
    let mut out = String::new();
    let mut i: usize = 0;
    assert(data@.take(0) =~= Seq::<u8>::empty());
    while i < n
        invariant
            n == data@.len(),
            i <= n,
            i % 3 == 0 || i == n,
            out@ == base64(data@.take(i as int)),
        decreases n - i,
    {
        let len: usize = if n - i >= 3 {
            3
        } else {
            n - i
        };
        let b0 = data[i] as u32;
        let b1 = if len > 1 {
            data[i + 1] as u32
        } else {
            0
        };
        let b2 = if len > 2 {
            data[i + 2] as u32
        } else {
            0
        };
        let w = (b0 << 16u32) | (b1 << 8u32) | b2;
        proof {
            lemma_group_bits(b0, b1, b2);
        }
        let ghost before = out@;
        out.push(symbol((w >> 18u32) & 63u32));
        out.push(symbol((w >> 12u32) & 63u32));
        out.push(
            if len > 1 {
                symbol((w >> 6u32) & 63u32)
            } else {
                '='
            },
        );
        out.push(
            if len > 2 {
                symbol(w & 63u32)
            } else {
                '='
            },
        );
        proof {
            let chunk = data@.subrange(i as int, (i + len) as int);
            lemma_base64_concat(data@.take(i as int), chunk);
            assert(data@.take(i as int) + chunk =~= data@.take((i + len) as int));
            let g = b64_group(chunk[0], b1 as u8, b2 as u8, len as int);
            if len == 3 {
                assert(chunk.skip(3) =~= Seq::<u8>::empty());
                assert(base64(chunk) =~= g + base64(chunk.skip(3)));
            }
            assert(out@ =~= before + g);
        }
        i = i + len;
    }
    assert(data@.take(n as int) =~= data@);
    out
}

/// The frame as a `data:` URL, or why there is none: `None` when the frame
/// could not be read, an empty frame when nothing was captured.
pub fn frame_data_url(jpeg: Option<Vec<u8>>) -> (r: Result<String, String>)
    ensures
        match jpeg {
            None => r matches Err(e) && e@ == "Frame capture failed — recording may still be starting"@,
            Some(b) => if b@.len() == 0 {
                r matches Err(e) && e@ == "Empty frame — try again in a moment"@
            } else {
                r matches Ok(u) && u@ == "data:image/jpeg;base64,"@ + base64(b@)
            },
        },
{
    match jpeg {
        None => Err("Frame capture failed — recording may still be starting".to_string()),
        Some(b) => {
            if b.len() == 0 {
                Err("Empty frame — try again in a moment".to_string())
            } else {
                let enc = encode_base64(b.as_slice());
                Ok(concat("data:image/jpeg;base64,", enc.as_str()))
            }
        },
    }
}

} // verus!
