//! Decoding of an HTTP body sent with `Transfer-Encoding: chunked`.
use vstd::prelude::*;

verus! {

/// The value of an ASCII hexadecimal digit, either case.
pub open spec fn hex_digit(b: u8) -> Option<nat> {
    if 0x30 <= b <= 0x39 {
        Some((b - 0x30) as nat)
    } else if 0x61 <= b <= 0x66 {
        Some((b - 0x61 + 10) as nat)
    } else if 0x41 <= b <= 0x46 {
        Some((b - 0x41 + 10) as nat)
    } else {
        None
    }
}

/// The number written by a run of hexadecimal digits, most significant first.
pub open spec fn hex_value(t: Seq<u8>) -> nat
    decreases t.len(),
{
    if t.len() == 0 {
        0
    } else {
        hex_value(t.drop_last()) * 16 + hex_digit(t.last()).unwrap_or(0)
    }
}

/// The end of the run of hexadecimal digits that starts at `i`.
pub open spec fn hex_end(s: Seq<u8>, i: int) -> int
    decreases s.len() - i,
{
    if i < 0 || i >= s.len() || hex_digit(s[i]) is None {
        i
    } else {
        hex_end(s, i + 1)
    }
}

/// Whether `\r\n` stands at position `i`.
pub open spec fn crlf_at(s: Seq<u8>, i: int) -> bool {
    0 <= i && i + 1 < s.len() && s[i] == 0x0d && s[i + 1] == 0x0a
}

/// The data of the chunks that start at position `i`, up to and including
/// the zero-length chunk and its empty trailer; `None` where the framing is
/// broken: a size that is not hexadecimal, a missing `\r\n`, or a chunk that
/// runs past the end of the input.
pub open spec fn chunks_from(s: Seq<u8>, i: int) -> Option<Seq<u8>>
    decreases s.len() - i,
{
    let j = hex_end(s, i);
    if j <= i || !crlf_at(s, j) {
        None
    } else {
        let n = hex_value(s.subrange(i, j));
        let d = j + 2;
        if n == 0 {
            if crlf_at(s, d) {
                Some(Seq::empty())
            } else {
                None
            }
        } else if d + n + 2 > s.len() || !crlf_at(s, d + n) {
            None
        } else {
            match chunks_from(s, d + n + 2) {
                Some(rest) => Some(s.subrange(d, d + n) + rest),
                None => None,
            }
        }
    }
}

/// The body that a chunked encoding `s` carries, if its framing is sound.
pub open spec fn dechunked(s: Seq<u8>) -> Option<Seq<u8>> {
    chunks_from(s, 0)
}

/// A chunked body whose framing is broken.
#[derive(Clone, Copy, Debug, PartialEq, Eq, Structural)]
pub enum ChunkError {
    Malformed,
}

proof fn lemma_hex_prefix_le(t: Seq<u8>, k: int)
    requires
        0 <= k <= t.len(),
    ensures
        hex_value(t.subrange(0, k)) <= hex_value(t),
    decreases t.len(),
{
    if k < t.len() {
        lemma_hex_prefix_le(t.drop_last(), k);
        assert(t.drop_last().subrange(0, k) =~= t.subrange(0, k));
    } else {
        assert(t.subrange(0, k) =~= t);
    }
}

fn hex_digit_of(b: u8) -> (r: Option<u8>)
    ensures
        match r {
            Some(v) => hex_digit(b) == Some(v as nat),
            None => hex_digit(b) is None,
        },
{
    if 0x30 <= b && b <= 0x39 {
        Some(b - 0x30)
    } else if 0x61 <= b && b <= 0x66 {
        Some(b - 0x61 + 10)
    } else if 0x41 <= b && b <= 0x46 {
        Some(b - 0x41 + 10)
    } else {
        None
    }
}

/// Joins the data of the chunks of `s` into one byte sequence. Sizes
/// are hexadecimal in either case, with no extensions; the body ends at the
/// zero-length chunk.
pub fn merge_chunks(s: &[u8]) -> (r: Result<Vec<u8>, ChunkError>)
    ensures
        match r {
            Ok(v) => dechunked(s@) == Some(v@),
            Err(_) => dechunked(s@) is None,
        },
{
    let len = s.len();
    let mut out: Vec<u8> = Vec::new();
    let mut pos: usize = 0;
    loop
        invariant
            len == s@.len(),
            pos <= len,
            dechunked(s@) == (match chunks_from(s@, pos as int) {
                Some(rest) => Some(out@ + rest),
                None => None,
            }),
        decreases len - pos,
    {
        let mut j: usize = pos;
        let mut v: u128 = 0;
        while j < len && hex_digit_of(s[j]).is_some()
            invariant
                len == s@.len(),
                pos <= j <= len,
                v <= len,
                v == hex_value(s@.subrange(pos as int, j as int)),
                hex_end(s@, pos as int) == hex_end(s@, j as int),
                dechunked(s@) == (match chunks_from(s@, pos as int) {
                    Some(rest) => Some(out@ + rest),
                    None => None,
                }),
            decreases len - j,
        {
            let dv = hex_digit_of(s[j]).unwrap();
            assert(s@.subrange(pos as int, j + 1).drop_last() =~= s@.subrange(pos as int, j as int));
            assert(hex_end(s@, j as int) == hex_end(s@, j + 1));
            v = v * 16 + dv as u128;
            j = j + 1;
            assert(v == hex_value(s@.subrange(pos as int, j as int)));
            if v > len as u128 {
                proof {
                    let e = hex_end(s@, pos as int);
                    assert(e >= j) by {
                        lemma_hex_end_ge(s@, j as int);
                    }
                    if e <= s@.len() {
                        lemma_hex_prefix_le(s@.subrange(pos as int, e), j - pos);
                        assert(s@.subrange(pos as int, e).subrange(0, j - pos) =~= s@.subrange(
                            pos as int,
                            j as int,
                        ));
                    }
                    lemma_hex_end_le(s@, pos as int);
                    assert(hex_value(s@.subrange(pos as int, e)) > len);
                }
                return Err(ChunkError::Malformed);
            }
        }
        assert(hex_end(s@, j as int) == j);
        if j == pos || len - j < 2 || s[j] != 0x0d || s[j + 1] != 0x0a {
            assert(chunks_from(s@, pos as int) is None);
            return Err(ChunkError::Malformed);
        }
        let n = v as usize;
        let d = j + 2;
        if n == 0 {
            if d < len && len - d >= 2 && s[d] == 0x0d && s[d + 1] == 0x0a {
                assert(chunks_from(s@, pos as int) == Some(Seq::<u8>::empty()));
                assert(out@ + Seq::<u8>::empty() =~= out@);
                return Ok(out);
            }
            assert(chunks_from(s@, pos as int) is None);
            return Err(ChunkError::Malformed);
        }
        if len - d < 2 || n > len - d - 2 || s[d + n] != 0x0d || s[d + n + 1] != 0x0a {
            assert(chunks_from(s@, pos as int) is None);
            return Err(ChunkError::Malformed);
        }
        let ghost before = out@;
        let mut k: usize = d;
        while k < d + n
            invariant
                len == s@.len(),
                d <= k <= d + n,
                d + n + 2 <= len,
                out@ == before + s@.subrange(d as int, k as int),
            decreases d + n - k,
        {
            out.push(s[k]);
            k = k + 1;
            assert(s@.subrange(d as int, k as int) =~= s@.subrange(d as int, k - 1) + seq![s@[k - 1]]);
        }
        pos = d + n + 2;
        proof {
            match chunks_from(s@, pos as int) {
                Some(rest) => {
                    assert(before + (s@.subrange(d as int, d + n) + rest) =~= out@ + rest);
                },
                None => {},
            }
        }
    }
}

proof fn lemma_hex_end_ge(s: Seq<u8>, i: int)
    ensures
        hex_end(s, i) >= i,
    decreases s.len() - i,
{
    if !(i < 0 || i >= s.len() || hex_digit(s[i]) is None) {
        lemma_hex_end_ge(s, i + 1);
    }
}

proof fn lemma_hex_end_le(s: Seq<u8>, i: int)
    requires
        0 <= i <= s.len(),
    ensures
        hex_end(s, i) <= s.len(),
    decreases s.len() - i,
{
    if !(i >= s.len() || hex_digit(s[i]) is None) {
        lemma_hex_end_le(s, i + 1);
    }
}

} // verus!
