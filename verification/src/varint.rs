//! Variable-length base-128 (LEB128) integer encoding and decoding, the
//! operand form used by the `DW_OP_regx` and `DW_OP_fbreg` location
//! opcodes.  Each byte carries seven value bits, low chunk first; the
//! high bit of a byte says that another byte follows.  The signed form
//! sign-extends from bit six of the final chunk.

use vstd::prelude::*;
use vstd::arithmetic::div_mod::lemma_div_is_ordered;
use vstd::arithmetic::div_mod::lemma_fundamental_div_mod;
use vstd::arithmetic::div_mod::lemma_fundamental_div_mod_converse;
use vstd::arithmetic::div_mod::lemma_multiply_divide_lt;
use vstd::arithmetic::power2::lemma2_to64;
use vstd::arithmetic::power2::lemma2_to64_rest;
use vstd::arithmetic::power2::lemma_pow2_adds;
use vstd::arithmetic::power2::lemma_pow2_strictly_increases;
use vstd::arithmetic::power2::pow2;

verus! {

/// The unsigned LEB128 encoding of `n`: seven bits per byte, low chunk
/// first, continuation bit set on every byte but the last.
pub open spec fn uleb_encoding(n: nat) -> Seq<u8>
    decreases n,
{
    if n < 128 {
        seq![n as u8]
    } else {
        seq![(n % 128 + 128) as u8] + uleb_encoding(n / 128)
    }
}

/// The value and byte count read by unsigned LEB128 decoding from the
/// front of `s`, or `None` if `s` ends before a byte without the
/// continuation bit.
pub open spec fn uleb_decode(s: Seq<u8>) -> Option<(nat, nat)>
    decreases s.len(),
{
    if s.len() == 0 {
        None
    } else if s[0] < 128 {
        Some((s[0] as nat, 1))
    } else {
        match uleb_decode(s.skip(1)) {
            None => None,
            Some((v, used)) => Some(((s[0] - 128 + 128 * v) as nat, (used + 1) as nat)),
        }
    }
}

/// What a bounded unsigned LEB128 read of `s` yields: the decoded value
/// and the bytes consumed, provided the encoding stops within ten bytes
/// and the value fits in a `u64`; `None` otherwise.
pub open spec fn uleb_ok(s: Seq<u8>) -> Option<(u64, usize)> {
    match uleb_decode(s) {
        None => None,
        Some((v, used)) => if v < 0x10000000000000000 && used <= 10 {
            Some((v as u64, used as usize))
        } else {
            None
        },
    }
}

/// The signed LEB128 encoding of `n`: as the unsigned form, but the
/// final chunk's bit six is the sign bit.
pub open spec fn sleb_encoding(n: int) -> Seq<u8>
    decreases (if n < 0 {
        -n
    } else {
        n
    }),
{
    if -64 <= n < 64 {
        seq![(n % 128) as u8]
    } else {
        seq![(n % 128 + 128) as u8] + sleb_encoding(n / 128)
    }
}

/// The value and byte count read by signed LEB128 decoding from the
/// front of `s`, or `None` if `s` ends before a final byte.
pub open spec fn sleb_decode(s: Seq<u8>) -> Option<(int, nat)>
    decreases s.len(),
{
    if s.len() == 0 {
        None
    } else if s[0] < 128 {
        if s[0] >= 64 {
            Some((s[0] - 128, 1))
        } else {
            Some((s[0] as int, 1))
        }
    } else {
        match sleb_decode(s.skip(1)) {
            None => None,
            Some((v, used)) => Some((s[0] - 128 + 128 * v, (used + 1) as nat)),
        }
    }
}

/// What a bounded signed LEB128 read of `s` yields: the decoded value
/// and the bytes consumed, provided the encoding stops within ten bytes
/// and the value fits in an `i64`; `None` otherwise.
pub open spec fn sleb_ok(s: Seq<u8>) -> Option<(i64, usize)> {
    match sleb_decode(s) {
        None => None,
        Some((v, used)) => if -0x8000000000000000 <= v < 0x8000000000000000 && used <= 10 {
            Some((v as i64, used as usize))
        } else {
            None
        },
    }
}

/// Encode `n` in unsigned LEB128.
pub fn encode_unsigned(n: u64) -> (r: Vec<u8>)
    ensures
        r@ == uleb_encoding(n as nat),
    decreases n,
{
    if n < 128 {
        let mut v: Vec<u8> = Vec::new();
        v.push(n as u8);
        proof {
            assert(v@ =~= uleb_encoding(n as nat));
        }
        v
    } else {
        let mut v: Vec<u8> = Vec::new();
        v.push((n % 128 + 128) as u8);
        let mut rest = encode_unsigned(n / 128);
        v.append(&mut rest);
        proof {
            assert(v@ =~= uleb_encoding(n as nat));
        }
        v
    }
}

/// Encode `n` in signed LEB128.
pub fn encode_signed(n: i64) -> (r: Vec<u8>)
    ensures
        r@ == sleb_encoding(n as int),
    decreases (if n < 0 {
        -(n as int)
    } else {
        n as int
    }),
{
    if -64 <= n && n < 64 {
        let b: u8 = if n < 0 {
            (n + 128) as u8
        } else {
            n as u8
        };
        let mut v: Vec<u8> = Vec::new();
        v.push(b);
        proof {
            assert(v@ =~= sleb_encoding(n as int));
        }
        v
    } else if n >= 64 {
        let chunk: u8 = (n % 128) as u8;
        let next: i64 = n / 128;
        let mut v: Vec<u8> = Vec::new();
        v.push(chunk + 128);
        let mut rest = encode_signed(next);
        v.append(&mut rest);
        proof {
            assert(v@ =~= sleb_encoding(n as int));
        }
        v
    } else {
        // n < -64: write n as -(m + 1) so that all arithmetic stays on
        // non-negative values; then n mod 128 == 127 - m % 128 and the
        // Euclidean quotient of n by 128 is -(m / 128) - 1.
        let m: i64 = -(n + 1);
        let rm: i64 = m % 128;
        let km: i64 = m / 128;
        let chunk: u8 = (127 - rm) as u8;
        let next: i64 = -km - 1;
        proof {
            vstd::arithmetic::div_mod::lemma_fundamental_div_mod_converse(
                n as int,
                128,
                -(km as int) - 1,
                127 - rm,
            );
        }
        let mut v: Vec<u8> = Vec::new();
        v.push(chunk + 128);
        let mut rest = encode_signed(next);
        v.append(&mut rest);
        proof {
            assert(v@ =~= sleb_encoding(n as int));
        }
        v
    }
}

/// A prefix of continuation bytes forces the decoder past it: if the
/// first `m` bytes of `s` all carry the continuation bit, an unsigned
/// decode of `s` either fails or consumes more than `m` bytes, and
/// fails outright when the whole of `s` is such a prefix.
proof fn lemma_uleb_all_continuation(s: Seq<u8>, m: int)
    requires
        0 <= m <= s.len(),
        forall|k: int| 0 <= k < m ==> s[k] >= 128,
    ensures
        m == s.len() ==> uleb_decode(s) is None,
        uleb_decode(s) matches Some(p) ==> p.1 > m,
    decreases m,
{
    if m > 0 {
        lemma_uleb_all_continuation(s.skip(1), m - 1);
    }
}

/// The signed twin of `lemma_uleb_all_continuation`.
proof fn lemma_sleb_all_continuation(s: Seq<u8>, m: int)
    requires
        0 <= m <= s.len(),
        forall|k: int| 0 <= k < m ==> s[k] >= 128,
    ensures
        m == s.len() ==> sleb_decode(s) is None,
        sleb_decode(s) matches Some(p) ==> p.1 > m,
    decreases m,
{
    if m > 0 {
        lemma_sleb_all_continuation(s.skip(1), m - 1);
    }
}

/// The index of the first byte of `buf` without the continuation bit,
/// if one stands among the first ten bytes.
fn find_terminator(buf: &[u8]) -> (r: Option<usize>)
    ensures
        r matches Some(e) ==> e < buf@.len() && e <= 9 && buf@[e as int] < 128 && (forall|k: int|
            0 <= k < e ==> buf@[k] >= 128),
        r is None ==> forall|k: int| 0 <= k < buf@.len() && k < 10 ==> buf@[k] >= 128,
{
    let n = buf.len();
    let mut i: usize = 0;
    while i < n && i < 10
        invariant
            i <= 10,
            i <= n,
            n == buf@.len(),
            forall|k: int| 0 <= k < i ==> buf@[k] >= 128,
        decreases n - i,
    {
        if buf[i] < 128 {
            return Some(i);
        }
        i += 1;
    }
    None
}

/// Decode the unsigned value whose chunks run from `pos` to the
/// terminator at `end`, or report that it does not fit in a `u64`.
fn decode_u_rec(buf: &[u8], pos: usize, end: usize) -> (r: Option<u64>)
    requires
        pos <= end < buf@.len(),
        end - pos <= 9,
        buf@[end as int] < 128,
        forall|k: int| pos <= k < end ==> buf@[k] >= 128,
    ensures
        uleb_decode(buf@.skip(pos as int)) matches Some(p) && p.1 == end + 1 - pos && (
        r matches Some(v) ==> p.0 == v) && (r is None ==> p.0 >= 0x10000000000000000),
    decreases end - pos,
{
    let b = buf[pos];
    if pos == end {
        Some(b as u64)
    } else {
        proof {
            assert(buf@.skip(pos as int).skip(1) =~= buf@.skip(pos as int + 1));
        }
        match decode_u_rec(buf, pos + 1, end) {
            None => None,
            Some(rest) => {
                let c: u8 = b - 128;
                if rest >= 0x200000000000000 {
                    None
                } else {
                    Some((c as u64) + 128 * rest)
                }
            },
        }
    }
}

/// Decode the signed value whose chunks run from `pos` to the
/// terminator at `end`, or report that it does not fit in an `i64`.
fn decode_s_rec(buf: &[u8], pos: usize, end: usize) -> (r: Option<i64>)
    requires
        pos <= end < buf@.len(),
        end - pos <= 9,
        buf@[end as int] < 128,
        forall|k: int| pos <= k < end ==> buf@[k] >= 128,
    ensures
        sleb_decode(buf@.skip(pos as int)) matches Some(p) && p.1 == end + 1 - pos && (
        r matches Some(v) ==> p.0 == v) && (r is None ==> p.0 >= 0x8000000000000000 || p.0
            < -0x8000000000000000),
    decreases end - pos,
{
    let b = buf[pos];
    if pos == end {
        if b >= 64 {
            Some((b as i64) - 128)
        } else {
            Some(b as i64)
        }
    } else {
        proof {
            assert(buf@.skip(pos as int).skip(1) =~= buf@.skip(pos as int + 1));
        }
        match decode_s_rec(buf, pos + 1, end) {
            None => None,
            Some(rest) => {
                let c: u8 = b - 128;
                if rest >= 0x100000000000000 {
                    None
                } else if rest < -0x100000000000000 {
                    None
                } else {
                    Some((c as i64) + 128 * rest)
                }
            },
        }
    }
}

/// Read an unsigned LEB128 integer from the front of `buf`: the value
/// and the count of bytes consumed.  Fails when the buffer ends before
/// a final byte, when the encoding runs past ten bytes, and when the
/// value does not fit in a `u64`; trailing bytes are ignored.
pub fn decode_unsigned(buf: &[u8]) -> (r: Option<(u64, usize)>)
    ensures
        r == uleb_ok(buf@),
{
    match find_terminator(buf) {
        None => {
            proof {
                if buf@.len() <= 10 {
                    lemma_uleb_all_continuation(buf@, buf@.len() as int);
                } else {
                    lemma_uleb_all_continuation(buf@, 10);
                }
            }
            None
        },
        Some(e) => {
            proof {
                assert(buf@.skip(0) =~= buf@);
            }
            match decode_u_rec(buf, 0, e) {
                None => None,
                Some(v) => Some((v, e + 1)),
            }
        },
    }
}

/// Read a signed LEB128 integer from the front of `buf`: the value and
/// the count of bytes consumed.  Fails when the buffer ends before a
/// final byte, when the encoding runs past ten bytes, and when the
/// value does not fit in an `i64`; trailing bytes are ignored.
pub fn decode_signed(buf: &[u8]) -> (r: Option<(i64, usize)>)
    ensures
        r == sleb_ok(buf@),
{
    match find_terminator(buf) {
        None => {
            proof {
                if buf@.len() <= 10 {
                    lemma_sleb_all_continuation(buf@, buf@.len() as int);
                } else {
                    lemma_sleb_all_continuation(buf@, 10);
                }
            }
            None
        },
        Some(e) => {
            proof {
                assert(buf@.skip(0) =~= buf@);
            }
            match decode_s_rec(buf, 0, e) {
                None => None,
                Some(v) => Some((v, e + 1)),
            }
        },
    }
}

/// Decoding inverts encoding, at the level of the unbounded scheme.
pub proof fn lemma_uleb_round_trip(n: nat)
    ensures
        uleb_decode(uleb_encoding(n)) matches Some(p) && p.0 == n && p.1 == uleb_encoding(
            n,
        ).len(),
    decreases n,
{
    if n < 128 {
    } else {
        lemma_uleb_round_trip(n / 128);
        assert(uleb_encoding(n).skip(1) =~= uleb_encoding(n / 128));
        lemma_fundamental_div_mod(n as int, 128);
    }
}

/// A value below `2^(7k+7)` encodes in at most `k + 1` bytes.
proof fn lemma_uleb_encoding_len(n: nat, k: nat)
    requires
        n < pow2((7 * k + 7) as nat),
    ensures
        1 <= uleb_encoding(n).len() <= k + 1,
    decreases k,
{
    if n < 128 {
    } else {
        lemma2_to64();
        if k > 0 {
            let c = pow2((7 * (k - 1) + 7) as nat) as int;
            lemma_pow2_adds((7 * (k - 1) + 7) as nat, 7);
            lemma_multiply_divide_lt(n as int, 128, c);
            lemma_uleb_encoding_len(n / 128, (k - 1) as nat);
        }
    }
}

/// Round trip for every `u64`: encoding `n` and then decoding it under
/// the bounded read yields `n` exactly, consuming the whole encoding,
/// which is one to ten bytes long.
pub proof fn lemma_unsigned_round_trip(n: u64)
    ensures
        uleb_ok(uleb_encoding(n as nat)) matches Some(p) && p.0 == n && p.1 == uleb_encoding(
            n as nat,
        ).len(),
        1 <= uleb_encoding(n as nat).len() <= 10,
{
    lemma_uleb_round_trip(n as nat);
    lemma2_to64();
    lemma2_to64_rest();
    lemma_pow2_strictly_increases(64, 70);
    lemma_uleb_encoding_len(n as nat, 9);
}

/// Decoding inverts encoding, at the level of the unbounded signed
/// scheme.
pub proof fn lemma_sleb_round_trip(n: int)
    ensures
        sleb_decode(sleb_encoding(n)) matches Some(p) && p.0 == n && p.1 == sleb_encoding(
            n,
        ).len(),
    decreases (if n < 0 {
        -n
    } else {
        n
    }),
{
    if -64 <= n < 64 {
    } else {
        lemma_sleb_round_trip(n / 128);
        assert(sleb_encoding(n).skip(1) =~= sleb_encoding(n / 128));
        lemma_fundamental_div_mod(n, 128);
    }
}

/// A value in `[-2^(7k+6), 2^(7k+6))` encodes in at most `k + 1` bytes.
proof fn lemma_sleb_encoding_len(n: int, k: nat)
    requires
        -(pow2((7 * k + 6) as nat) as int) <= n < pow2((7 * k + 6) as nat),
    ensures
        1 <= sleb_encoding(n).len() <= k + 1,
    decreases k,
{
    if -64 <= n < 64 {
    } else {
        lemma2_to64();
        if k > 0 {
            let c = pow2((7 * (k - 1) + 6) as nat) as int;
            lemma_pow2_adds((7 * (k - 1) + 6) as nat, 7);
            lemma_multiply_divide_lt(n, 128, c);
            lemma_div_is_ordered(-(128 * c), n, 128);
            lemma_fundamental_div_mod_converse(-(128 * c), 128, -c, 0);
            lemma_sleb_encoding_len(n / 128, (k - 1) as nat);
        }
    }
}

/// Round trip for every `i64`: encoding `n` and then decoding it under
/// the bounded read yields `n` exactly, consuming the whole encoding,
/// which is one to ten bytes long.
pub proof fn lemma_signed_round_trip(n: i64)
    ensures
        sleb_ok(sleb_encoding(n as int)) matches Some(p) && p.0 == n && p.1 == sleb_encoding(
            n as int,
        ).len(),
        1 <= sleb_encoding(n as int).len() <= 10,
{
    lemma_sleb_round_trip(n as int);
    lemma2_to64();
    lemma2_to64_rest();
    lemma_pow2_strictly_increases(63, 69);
    lemma_sleb_encoding_len(n as int, 9);
}

} // verus!
