//! Base64 with the standard alphabet: how a job's file travels inside a request.

use vstd::prelude::*;

verus! {

/// The symbol that stands for the six bits `v`.
pub open spec fn symbol(v: int) -> char {
    if v < 26 {
        (0x41 + v) as char
    } else if v < 52 {
        (0x61 + (v - 26)) as char
    } else if v < 62 {
        (0x30 + (v - 52)) as char
    } else if v == 62 {
        '+'
    } else {
        '/'
    }
}

/// The six bits that the byte `b` stands for: none of them set where it is no symbol.
pub open spec fn sextet(b: u8) -> int {
    if 0x41 <= b <= 0x5a {
        b - 0x41
    } else if 0x61 <= b <= 0x7a {
        b - 0x61 + 26
    } else if 0x30 <= b <= 0x39 {
        b - 0x30 + 52
    } else if b == 0x2b {
        62
    } else if b == 0x2f {
        63
    } else {
        0
    }
}

/// Three bytes as one number of 24 bits.
pub open spec fn triple(b0: u8, b1: u8, b2: u8) -> int {
    b0 * 65536 + b1 * 256 + b2
}

/// `data` in base64, padded with `=` to a multiple of four symbols.
pub open spec fn encoded(data: Seq<u8>) -> Seq<char>
    decreases data.len(),
{
    if data.len() == 0 {
        Seq::empty()
    } else if data.len() == 1 {
        let n = triple(data[0], 0, 0);
        Seq::empty().push(symbol(n / 262144)).push(symbol((n / 4096) % 64)).push('=').push('=')
    } else if data.len() == 2 {
        let n = triple(data[0], data[1], 0);
        Seq::empty().push(symbol(n / 262144)).push(symbol((n / 4096) % 64)).push(
            symbol((n / 64) % 64),
        ).push('=')
    } else {
        let n = triple(data[0], data[1], data[2]);
        Seq::empty().push(symbol(n / 262144)).push(symbol((n / 4096) % 64)).push(
            symbol((n / 64) % 64),
        ).push(symbol(n % 64)) + encoded(data.skip(3))
    }
}

/// The bytes of `bs` that are not padding.
pub open spec fn significant(bs: Seq<u8>) -> Seq<u8> {
    bs.filter(|b: u8| b != 0x3d)
}

/// The six bits of the symbol at position `i` of `bs`: none of them set behind the end.
pub open spec fn bits_at(bs: Seq<u8>, i: int) -> int {
    if i < bs.len() {
        sextet(bs[i])
    } else {
        0
    }
}

/// The first four symbols of `bs` as one number of 24 bits.
pub open spec fn quad(bs: Seq<u8>) -> int {
    bits_at(bs, 0) * 262144 + bits_at(bs, 1) * 4096 + bits_at(bs, 2) * 64 + bits_at(bs, 3)
}

/// The three bytes of a number of 24 bits.
pub open spec fn bytes_of(n: int) -> Seq<u8> {
    Seq::empty().push((n / 65536) as u8).push(((n / 256) % 256) as u8).push((n % 256) as u8)
}

/// What the symbols `bs` stand for, four of them for three bytes; three symbols at the end stand
/// for two bytes, and two symbols for one.
pub open spec fn unpacked(bs: Seq<u8>) -> Seq<u8>
    decreases bs.len(),
{
    if bs.len() < 2 {
        Seq::empty()
    } else if bs.len() < 4 {
        bytes_of(quad(bs)).take(bs.len() - 1)
    } else {
        bytes_of(quad(bs)) + unpacked(bs.skip(4))
    }
}

/// Whether the text `s` can be taken as base64: one symbol alone at the end stands for no byte.
pub open spec fn decodable(s: Seq<char>) -> bool {
    significant(vstd::utf8::encode_utf8(s)).len() % 4 != 1
}

/// What the text `s` stands for in base64.
pub open spec fn decoded(s: Seq<char>) -> Seq<u8> {
    unpacked(significant(vstd::utf8::encode_utf8(s)))
}

/// The symbol that stands for the six bits `v`.
fn symbol_of(v: u32) -> (r: char)
    requires
        v < 64,
    ensures
        r == symbol(v as int),
{
    let b: u8 = if v < 26 {
        (0x41 + v) as u8
    } else if v < 52 {
        (0x61 + (v - 26)) as u8
    } else if v < 62 {
        (0x30 + (v - 52)) as u8
    } else if v == 62 {
        0x2b
    } else {
        0x2f
    };
    b as char
}

/// The six bits that the byte `b` stands for.
fn sextet_of(b: u8) -> (r: u32)
    ensures
        r == sextet(b),
        r < 64,
{
    if 0x41 <= b && b <= 0x5a {
        (b - 0x41) as u32
    } else if 0x61 <= b && b <= 0x7a {
        (b - 0x61 + 26) as u32
    } else if 0x30 <= b && b <= 0x39 {
        (b - 0x30 + 52) as u32
    } else if b == 0x2b {
        62
    } else if b == 0x2f {
        63
    } else {
        0
    }
}

/// `data` in base64.
pub fn base64_encode(data: &[u8]) -> (r: String)
    ensures
        r@ == encoded(data@),
{
    let len = data.len();
    let mut out = String::new();
    let mut i: usize = 0;
    assert(data@.skip(0) == data@);
    assert(out@ + encoded(data@.skip(0)) =~= encoded(data@));
    while i < len
        invariant
            i <= len,
            len == data@.len(),
            out@ + encoded(data@.skip(i as int)) == encoded(data@),
        decreases len - i,
    {
        let ghost was = out@;
        let ghost rest = data@.skip(i as int);
        let b0: u32 = data[i] as u32;
        let b1: u32 = if len - i > 1 {
            data[i + 1] as u32
        } else {
            0
        };
        let b2: u32 = if len - i > 2 {
            data[i + 2] as u32
        } else {
            0
        };
        let n: u32 = (b0 << 16) | (b1 << 8) | b2;
        assert(n == b0 * 65536 + b1 * 256 + b2 && n >> 18 == n / 262144 && (n >> 12) & 63 == (n
            / 4096) % 64 && (n >> 6) & 63 == (n / 64) % 64 && n & 63 == n % 64 && (n >> 18) & 63 == n
            / 262144) by (bit_vector)
            requires
                b0 < 256,
                b1 < 256,
                b2 < 256,
                n == (b0 << 16) | (b1 << 8) | b2,
        ;
        out.push(symbol_of((n >> 18) & 63));
        out.push(symbol_of((n >> 12) & 63));
        out.push(
            if len - i > 1 {
                symbol_of((n >> 6) & 63)
            } else {
                '='
            },
        );
        out.push(
            if len - i > 2 {
                symbol_of(n & 63)
            } else {
                '='
            },
        );
        i = if len - i > 2 {
            i + 3
        } else {
            len
        };
        proof {
            if rest.len() > 2 {
                assert(rest.skip(3) =~= data@.skip(i as int));
            } else {
                assert(data@.skip(i as int) =~= Seq::<u8>::empty());
            }
            assert(out@ + encoded(data@.skip(i as int)) =~= was + encoded(rest));
        }
    }
    assert(data@.skip(i as int) =~= Seq::<u8>::empty());
    assert(out@ + encoded(data@.skip(i as int)) =~= out@);
    out
}

/// The bytes of `bs` that are not padding.
fn significant_of(bs: &[u8]) -> (r: Vec<u8>)
    ensures
        r@ == significant(bs@),
{
    let mut out: Vec<u8> = Vec::new();
    let ghost p = |b: u8| b != 0x3d;
    let len = bs.len();
    proof {
        reveal(Seq::filter);
        assert(bs@.take(0) =~= Seq::<u8>::empty());
    }
    for i in 0..len
        invariant
            len == bs@.len(),
            p == (|b: u8| b != 0x3d),
            out@ == bs@.take(i as int).filter(p),
    {
        proof {
            reveal(Seq::filter);
            assert(bs@.take(i + 1).drop_last() =~= bs@.take(i as int));
        }
        if bs[i] != 0x3d {
            out.push(bs[i]);
        }
    }
    assert(bs@.take(len as int) =~= bs@);
    out
}

/// Whether the text `s` can be taken as base64.
pub fn base64_decodable(s: &str) -> (r: bool)
    ensures
        r == decodable(s@),
{
    significant_of(s.as_bytes()).len() % 4 != 1
}

/// The three bytes that four groups of six bits make up.
fn group(v0: u32, v1: u32, v2: u32, v3: u32) -> (r: (u8, u8, u8))
    requires
        v0 < 64,
        v1 < 64,
        v2 < 64,
        v3 < 64,
    ensures
        bytes_of(v0 * 262144 + v1 * 4096 + v2 * 64 + v3) == seq![r.0, r.1, r.2],
{
    let n: u32 = (v0 << 18) | (v1 << 12) | (v2 << 6) | v3;
    assert(n == v0 * 262144 + v1 * 4096 + v2 * 64 + v3 && (n >> 16) & 0xff == n / 65536 && (n >> 8)
        & 0xff == (n / 256) % 256 && n & 0xff == n % 256) by (bit_vector)
        requires
            v0 < 64,
            v1 < 64,
            v2 < 64,
            v3 < 64,
            n == (v0 << 18) | (v1 << 12) | (v2 << 6) | v3,
    ;
    let r = (((n >> 16) & 0xff) as u8, ((n >> 8) & 0xff) as u8, (n & 0xff) as u8);
    assert(bytes_of(n as int) =~= seq![r.0, r.1, r.2]);
    r
}

/// The three bytes that the symbols from position `i` on stand for.
fn group_at(bytes: &Vec<u8>, i: usize) -> (r: (u8, u8, u8))
    requires
        i + 1 < bytes@.len(),
    ensures
        bytes_of(quad(bytes@.skip(i as int))) == seq![r.0, r.1, r.2],
{
    let len = bytes.len();
    let v0: u32 = sextet_of(bytes[i]);
    let v1: u32 = sextet_of(bytes[i + 1]);
    let v2: u32 = if len - i > 2 {
        sextet_of(bytes[i + 2])
    } else {
        0
    };
    let v3: u32 = if len - i > 3 {
        sextet_of(bytes[i + 3])
    } else {
        0
    };
    assert(quad(bytes@.skip(i as int)) == v0 * 262144 + v1 * 4096 + v2 * 64 + v3);
    group(v0, v1, v2, v3)
}

proof fn lemma_taken(was: Seq<u8>, rest: Seq<u8>, b: Seq<u8>)
    requires
        rest.len() > 1,
        bytes_of(quad(rest)) == b,
    ensures
        rest.len() > 3 ==> was + b + unpacked(rest.skip(4)) == was + unpacked(rest),
        rest.len() <= 3 ==> was + b.take(rest.len() - 1) + unpacked(Seq::<u8>::empty()) == was
            + unpacked(rest),
{
    if rest.len() > 3 {
        let u = unpacked(rest.skip(4));
        assert(unpacked(rest) == b + u);
        assert(was + b + u =~= was + (b + u));
    } else {
        assert(unpacked(rest) == b.take(rest.len() - 1));
        assert(unpacked(Seq::<u8>::empty()) =~= Seq::<u8>::empty());
        assert(was + b.take(rest.len() - 1) + Seq::<u8>::empty() =~= was + b.take(rest.len() - 1));
    }
}

/// What the text `s` stands for in base64.
#[verifier::rlimit(40)]
#[verifier::spinoff_prover]
pub fn base64_decode(s: &str) -> (r: Vec<u8>)
    requires
        decodable(s@),
    ensures
        r@ == decoded(s@),
{
    let bytes = significant_of(s.as_bytes());
    let len = bytes.len();
    let mut out: Vec<u8> = Vec::new();
    let mut i: usize = 0;
    assert(bytes@.skip(0) =~= bytes@);
    assert(out@ + unpacked(bytes@.skip(0)) =~= decoded(s@));
    while i < len
        invariant
            i <= len,
            len == bytes@.len(),
            (len - i) % 4 != 1,
            out@ + unpacked(bytes@.skip(i as int)) == decoded(s@),
        decreases len - i,
    {
        let ghost was = out@;
        let ghost rest = bytes@.skip(i as int);
        let g = group_at(&bytes, i);
        out.push(g.0);
        if len - i > 2 {
            out.push(g.1);
        }
        if len - i > 3 {
            out.push(g.2);
        }
        i = if len - i > 3 {
            i + 4
        } else {
            len
        };
        proof {
            let b = seq![g.0, g.1, g.2];
            if rest.len() > 3 {
                assert(rest.skip(4) =~= bytes@.skip(i as int));
                assert(out@ =~= was + b);
            } else {
                assert(bytes@.skip(i as int) =~= Seq::<u8>::empty());
                assert(out@ =~= was + b.take(rest.len() - 1));
            }
            lemma_taken(was, rest, b);
        }
    }
    assert(bytes@.skip(i as int) =~= Seq::<u8>::empty());
    assert(out@ + unpacked(bytes@.skip(i as int)) =~= out@);
    out
}

/// The symbols of `data` without padding, as bytes.
#[verifier::opaque]
spec fn symbols(data: Seq<u8>) -> Seq<u8>
    decreases data.len(),
{
    if data.len() == 0 {
        Seq::empty()
    } else if data.len() == 1 {
        let n = triple(data[0], 0, 0);
        seq![symbol(n / 262144) as u8, symbol((n / 4096) % 64) as u8]
    } else if data.len() == 2 {
        let n = triple(data[0], data[1], 0);
        seq![
            symbol(n / 262144) as u8,
            symbol((n / 4096) % 64) as u8,
            symbol((n / 64) % 64) as u8,
        ]
    } else {
        let n = triple(data[0], data[1], data[2]);
        seq![
            symbol(n / 262144) as u8,
            symbol((n / 4096) % 64) as u8,
            symbol((n / 64) % 64) as u8,
            symbol(n % 64) as u8,
        ] + symbols(data.skip(3))
    }
}

proof fn lemma_symbol(v: int)
    requires
        0 <= v < 64,
    ensures
        sextet(symbol(v) as u8) == v,
        symbol(v) as u8 != 0x3d,
        (symbol(v) as u32) < 128,
{
}

/// The text of `data` in bytes.
spec fn plain(s: Seq<char>) -> Seq<u8> {
    Seq::new(s.len(), |i: int| s[i] as u8)
}

proof fn lemma_encoded_symbols(data: Seq<u8>)
    ensures
        vstd::utf8::is_ascii_chars(encoded(data)),
        significant(plain(encoded(data))) == symbols(data),
    decreases data.len(),
{
    reveal(symbols);
    reveal_with_fuel(Seq::filter, 6);
    let p = |b: u8| b != 0x3d;
    assert forall|v: int| 0 <= v < 64 implies #[trigger] symbol(v) as u8 != 0x3d && (symbol(v)
        as u32) < 128 by {
        lemma_symbol(v);
    }
    if data.len() == 0 {
        assert(plain(encoded(data)) =~= Seq::<u8>::empty());
    } else if data.len() == 1 {
        let n = triple(data[0], 0, 0);
        let a = symbols(data);
        assert(plain(encoded(data)) =~= a.push(0x3d).push(0x3d));
        assert(a.push(0x3d).push(0x3d).drop_last() =~= a.push(0x3d));
        assert(a.push(0x3d).drop_last() =~= a);
        assert(a.drop_last() =~= seq![a[0]]);
        assert(a.drop_last().drop_last() =~= Seq::<u8>::empty());
        assert(a.filter(p) =~= a);
    } else if data.len() == 2 {
        let n = triple(data[0], data[1], 0);
        let a = symbols(data);
        assert(plain(encoded(data)) =~= a.push(0x3d));
        assert(a.push(0x3d).drop_last() =~= a);
        assert(a.drop_last() =~= seq![a[0], a[1]]);
        assert(a.drop_last().drop_last() =~= seq![a[0]]);
        assert(a.drop_last().drop_last().drop_last() =~= Seq::<u8>::empty());
        assert(a.filter(p) =~= a);
    } else {
        let n = triple(data[0], data[1], data[2]);
        let rest = encoded(data.skip(3));
        lemma_encoded_symbols(data.skip(3));
        let a = seq![
            symbol(n / 262144) as u8,
            symbol((n / 4096) % 64) as u8,
            symbol((n / 64) % 64) as u8,
            symbol(n % 64) as u8,
        ];
        assert(plain(encoded(data)) =~= a + plain(rest));
        assert(a.drop_last() =~= seq![a[0], a[1], a[2]]);
        assert(a.drop_last().drop_last() =~= seq![a[0], a[1]]);
        assert(a.drop_last().drop_last().drop_last() =~= seq![a[0]]);
        assert(a.drop_last().drop_last().drop_last().drop_last() =~= Seq::<u8>::empty());
        assert(a.filter(p) =~= a);
        Seq::filter_distributes_over_add(a, plain(rest), p);
    }
}

proof fn lemma_regroup(n: int)
    requires
        0 <= n < 16777216,
    ensures
        (n / 262144) * 262144 + ((n / 4096) % 64) * 4096 + ((n / 64) % 64) * 64 + n % 64 == n,
        0 <= n / 262144 < 64,
{
}

proof fn lemma_triple(b0: u8, b1: u8, b2: u8)
    ensures
        0 <= triple(b0, b1, b2) < 16777216,
        triple(b0, b1, b2) / 65536 == b0,
        (triple(b0, b1, b2) / 256) % 256 == b1,
        triple(b0, b1, b2) % 256 == b2,
        b2 == 0 ==> triple(b0, b1, b2) % 64 == 0,
        b1 == 0 && b2 == 0 ==> (triple(b0, b1, b2) / 64) % 64 == 0,
{
}

/// The first three bytes of `data` as one number of 24 bits, with zeros behind the end.
spec fn head_triple(data: Seq<u8>) -> int {
    triple(
        data[0],
        if data.len() > 1 {
            data[1]
        } else {
            0
        },
        if data.len() > 2 {
            data[2]
        } else {
            0
        },
    )
}

proof fn lemma_symbols_head(data: Seq<u8>)
    requires
        data.len() > 0,
    ensures
        data.len() < 3 ==> symbols(data).len() == data.len() + 1,
        data.len() >= 3 ==> symbols(data).len() == 4 + symbols(data.skip(3)).len()
            && symbols(data).skip(4) == symbols(data.skip(3)),
        quad(symbols(data)) == head_triple(data),
{
    reveal(symbols);
    let n = head_triple(data);
    lemma_triple(
        data[0],
        if data.len() > 1 {
            data[1]
        } else {
            0
        },
        if data.len() > 2 {
            data[2]
        } else {
            0
        },
    );
    lemma_regroup(n);
    lemma_symbol(n / 262144);
    lemma_symbol((n / 4096) % 64);
    lemma_symbol((n / 64) % 64);
    lemma_symbol(n % 64);
    let s = symbols(data);
    assert(bits_at(s, 0) == n / 262144);
    assert(bits_at(s, 1) == (n / 4096) % 64);
    if data.len() >= 3 {
        assert(symbols(data).skip(4) =~= symbols(data.skip(3)));
    }
}

proof fn lemma_triple_bytes(b0: u8, b1: u8, b2: u8)
    ensures
        bytes_of(triple(b0, b1, b2)) == seq![b0, b1, b2],
{
    lemma_triple(b0, b1, b2);
    assert(bytes_of(triple(b0, b1, b2)) =~= seq![b0, b1, b2]);
}

#[verifier::spinoff_prover]
#[verifier::rlimit(60)]
proof fn lemma_unpack_symbols(data: Seq<u8>)
    ensures
        unpacked(symbols(data)) == data,
        symbols(data).len() % 4 != 1,
    decreases data.len(),
{
    let s = symbols(data);
    if data.len() == 0 {
        reveal(symbols);
        assert(unpacked(s) =~= data);
    } else {
        lemma_symbols_head(data);
        if data.len() > 2 {
            lemma_unpack_symbols(data.skip(3));
            lemma_triple_bytes(data[0], data[1], data[2]);
            let b = seq![data[0], data[1], data[2]];
            lemma_taken(Seq::empty(), s, b);
            assert(Seq::empty() + b =~= b);
            assert(Seq::empty() + unpacked(s) =~= unpacked(s));
            assert(b + data.skip(3) =~= data);
        } else if data.len() == 2 {
            lemma_triple_bytes(data[0], data[1], 0);
            assert(unpacked(s) =~= data);
        } else {
            lemma_triple_bytes(data[0], 0, 0);
            assert(unpacked(s) =~= data);
        }
    }
}

/// What was encoded can be decoded, and decoding gives it back.
pub proof fn law_decode_encode(data: Seq<u8>)
    ensures
        decodable(encoded(data)),
        decoded(encoded(data)) == data,
{
    lemma_encoded_symbols(data);
    lemma_unpack_symbols(data);
    vstd::utf8::is_ascii_chars_encode_utf8(encoded(data));
    assert(vstd::utf8::encode_utf8(encoded(data)) =~= plain(encoded(data)));
}

/// The text of `data` has four symbols for every three bytes begun.
pub proof fn law_encoded_length(data: Seq<u8>)
    ensures
        encoded(data).len() == 4 * ((data.len() + 2) / 3),
    decreases data.len(),
{
    if data.len() > 2 {
        law_encoded_length(data.skip(3));
    }
}

/// Different data have different texts.
pub proof fn law_encoded_injective(a: Seq<u8>, b: Seq<u8>)
    requires
        encoded(a) == encoded(b),
    ensures
        a == b,
{
    law_decode_encode(a);
    law_decode_encode(b);
}

/// The alphabet: the capital letters, the small letters, the digits, `+` and `/`, in this order.
pub proof fn law_alphabet(v: int)
    requires
        0 <= v < 64,
    ensures
        v < 26 ==> symbol(v) as int == 'A' as int + v,
        26 <= v < 52 ==> symbol(v) as int == 'a' as int + v - 26,
        52 <= v < 62 ==> symbol(v) as int == '0' as int + v - 52,
        symbol(62) == '+',
        symbol(63) == '/',
        symbol(v) as int <= 0x7f,
        sextet(symbol(v) as u8) == v,
{
    lemma_symbol(v);
}

/// A byte that is no symbol stands for zeros.
pub proof fn law_no_symbol(b: u8)
    requires
        forall|v: int| 0 <= v < 64 ==> #[trigger] symbol(v) as int != b,
    ensures
        sextet(b) == 0,
{
    if sextet(b) != 0 {
        let v = sextet(b);
        law_alphabet(v);
        assert(symbol(v) as int == b);
    }
}

proof fn lemma_sixes(q0: int, r0: int, q1: int, r1: int, q2: int, r2: int)
    requires
        0 <= q0 < 64,
        0 <= r0 < 4,
        0 <= q1 < 16,
        0 <= r1 < 16,
        0 <= q2 < 4,
        0 <= r2 < 64,
    ensures
        ({
            let n = (4 * q0 + r0) * 65536 + (16 * q1 + r1) * 256 + (64 * q2 + r2);
            &&& n / 262144 == q0
            &&& (n / 4096) % 64 == r0 * 16 + q1
            &&& (n / 64) % 64 == r1 * 4 + q2
            &&& n % 64 == r2
        }),
{
    let n = (4 * q0 + r0) * 65536 + (16 * q1 + r1) * 256 + (64 * q2 + r2);
    let x = r0 * 16 + q1;
    let y = r1 * 4 + q2;
    assert(n == 262144 * q0 + 4096 * x + 64 * y + r2);
    assert(n / 262144 == q0);
    assert(n / 4096 == 64 * q0 + x);
    assert(n / 64 == 4096 * q0 + 64 * x + y);
    assert((n / 64) % 64 == y);
}

proof fn lemma_triple_sixes(b0: u8, b1: u8, b2: u8)
    ensures
        triple(b0, b1, b2) / 262144 == b0 as int / 4,
        (triple(b0, b1, b2) / 4096) % 64 == (b0 as int % 4) * 16 + b1 as int / 16,
        (triple(b0, b1, b2) / 64) % 64 == (b1 as int % 16) * 4 + b2 as int / 64,
        triple(b0, b1, b2) % 64 == b2 as int % 64,
{
    lemma_sixes(
        b0 as int / 4,
        b0 as int % 4,
        b1 as int / 16,
        b1 as int % 16,
        b2 as int / 64,
        b2 as int % 64,
    );
}

/// Three bytes are four symbols of six bits each, from the highest bits down.
pub proof fn law_groups(data: Seq<u8>)
    requires
        data.len() > 2,
    ensures
        encoded(data) == seq![
            symbol(data[0] as int / 4),
            symbol((data[0] as int % 4) * 16 + data[1] as int / 16),
            symbol((data[1] as int % 16) * 4 + data[2] as int / 64),
            symbol(data[2] as int % 64),
        ] + encoded(data.skip(3)),
{
    lemma_triple_sixes(data[0], data[1], data[2]);
    let n = triple(data[0], data[1], data[2]);
    assert(Seq::empty().push(symbol(n / 262144)).push(symbol((n / 4096) % 64)).push(
        symbol((n / 64) % 64),
    ).push(symbol(n % 64)) =~= seq![
        symbol(data[0] as int / 4),
        symbol((data[0] as int % 4) * 16 + data[1] as int / 16),
        symbol((data[1] as int % 16) * 4 + data[2] as int / 64),
        symbol(data[2] as int % 64),
    ]);
}

/// Two bytes at the end are three symbols and one `=`, one byte is two symbols and two.
pub proof fn law_last_group(b0: u8, b1: u8)
    ensures
        encoded(Seq::empty()).len() == 0,
        encoded(seq![b0]) == seq![symbol(b0 as int / 4), symbol((b0 as int % 4) * 16), '=', '='],
        encoded(seq![b0, b1]) == seq![
            symbol(b0 as int / 4),
            symbol((b0 as int % 4) * 16 + b1 as int / 16),
            symbol((b1 as int % 16) * 4),
            '=',
        ],
{
    lemma_triple_sixes(b0, 0, 0);
    lemma_triple_sixes(b0, b1, 0);
    assert(encoded(seq![b0]) =~= seq![
        symbol(b0 as int / 4),
        symbol((b0 as int % 4) * 16),
        '=',
        '=',
    ]);
    assert(encoded(seq![b0, b1]) =~= seq![
        symbol(b0 as int / 4),
        symbol((b0 as int % 4) * 16 + b1 as int / 16),
        symbol((b1 as int % 16) * 4),
        '=',
    ]);
}

/// Padding is left out wherever it stands, and nothing else is.
pub proof fn law_padding(a: Seq<u8>, b: Seq<u8>)
    ensures
        significant(a.push('=' as u8) + b) == significant(a + b),
        forall|i: int| 0 <= i < significant(a).len() ==> #[trigger] significant(a)[i] != '=' as u8,
        (forall|i: int| 0 <= i < a.len() ==> #[trigger] a[i] != '=' as u8) ==> significant(a) == a,
{
    let p = |b: u8| b != 0x3d;
    assert('=' as u8 == 0x3d);
    Seq::filter_distributes_over_add(a.push(0x3d), b, p);
    Seq::filter_distributes_over_add(a, b, p);
    a.lemma_filter_push(0x3d, p);
    assert forall|i: int| 0 <= i < significant(a).len() implies #[trigger] significant(a)[i]
        != 0x3d by {
        a.lemma_filter_pred(p, i);
    }
    if forall|i: int| 0 <= i < a.len() ==> #[trigger] a[i] != '=' as u8 {
        lemma_nothing_left_out(a);
    }
}

proof fn lemma_nothing_left_out(a: Seq<u8>)
    requires
        forall|i: int| 0 <= i < a.len() ==> #[trigger] a[i] != 0x3d,
    ensures
        significant(a) == a,
    decreases a.len(),
{
    reveal(Seq::filter);
    if a.len() > 0 {
        assert forall|i: int| 0 <= i < a.drop_last().len() implies #[trigger] a.drop_last()[i]
            != 0x3d by {
            assert(a.drop_last()[i] == a[i]);
        }
        lemma_nothing_left_out(a.drop_last());
        assert(a.last() != 0x3d);
        assert(a.drop_last().push(a.last()) =~= a);
    }
}

proof fn lemma_eights(v0: int, q1: int, r1: int, q2: int, r2: int, v3: int)
    requires
        0 <= v0 < 64,
        0 <= q1 < 4,
        0 <= r1 < 16,
        0 <= q2 < 16,
        0 <= r2 < 4,
        0 <= v3 < 64,
    ensures
        ({
            let n = v0 * 262144 + (16 * q1 + r1) * 4096 + (4 * q2 + r2) * 64 + v3;
            &&& 0 <= n < 16777216
            &&& n / 65536 == v0 * 4 + q1
            &&& (n / 256) % 256 == r1 * 16 + q2
            &&& n % 256 == r2 * 64 + v3
        }),
{
    let n = v0 * 262144 + (16 * q1 + r1) * 4096 + (4 * q2 + r2) * 64 + v3;
    let x = v0 * 4 + q1;
    let y = r1 * 16 + q2;
    let z = r2 * 64 + v3;
    assert(n == 65536 * x + 256 * y + z);
    assert(n / 65536 == x);
    assert(n / 256 == 256 * x + y);
}

/// Four symbols are three bytes; two or three symbols at the end are one or two bytes; a single one
/// is none.
pub proof fn law_ungroups(bs: Seq<u8>, v0: int, v1: int, v2: int, v3: int)
    requires
        v0 == sextet(bs[0]),
        v1 == sextet(bs[1]),
        v2 == sextet(bs[2]),
        v3 == sextet(bs[3]),
    ensures
        bs.len() < 2 ==> unpacked(bs).len() == 0,
        bs.len() == 2 ==> unpacked(bs) == seq![(v0 * 4 + v1 / 16) as u8],
        bs.len() == 3 ==> unpacked(bs) == seq![
            (v0 * 4 + v1 / 16) as u8,
            ((v1 % 16) * 16 + v2 / 4) as u8,
        ],
        bs.len() > 3 ==> unpacked(bs) == seq![
            (v0 * 4 + v1 / 16) as u8,
            ((v1 % 16) * 16 + v2 / 4) as u8,
            ((v2 % 4) * 64 + v3) as u8,
        ] + unpacked(bs.skip(4)),
{
    if bs.len() > 3 {
        lemma_eights(v0, v1 / 16, v1 % 16, v2 / 4, v2 % 4, v3);
        assert(bytes_of(quad(bs)) =~= seq![
            (v0 * 4 + v1 / 16) as u8,
            ((v1 % 16) * 16 + v2 / 4) as u8,
            ((v2 % 4) * 64 + v3) as u8,
        ]);
    } else if bs.len() == 3 {
        lemma_eights(v0, v1 / 16, v1 % 16, v2 / 4, v2 % 4, 0);
        assert(unpacked(bs) =~= seq![
            (v0 * 4 + v1 / 16) as u8,
            ((v1 % 16) * 16 + v2 / 4) as u8,
        ]);
    } else if bs.len() == 2 {
        lemma_eights(v0, v1 / 16, v1 % 16, 0, 0, 0);
        assert(unpacked(bs) =~= seq![(v0 * 4 + v1 / 16) as u8]);
    }
}

/// A text is decoded from the bytes it is written in, without the padding, unless a single symbol
/// would be left at the end.
pub proof fn law_decodable(s: Seq<char>, k: nat)
    ensures
        ({
            let n = significant(vstd::utf8::encode_utf8(s)).len();
            &&& n == 4 * k || n == 4 * k + 2 || n == 4 * k + 3 ==> decodable(s)
            &&& n == 4 * k + 1 ==> !decodable(s)
        }),
        decoded(s) == unpacked(significant(vstd::utf8::encode_utf8(s))),
{
}

} // verus!
