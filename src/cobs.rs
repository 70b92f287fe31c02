//! Consistent-overhead byte stuffing: a zero-free encoding, so that a single
//! `0x00` can end a frame on a byte stream.
use vstd::prelude::*;

verus! {

/// Why a stuffed stream could not be decoded.
#[derive(Debug, Clone, Copy, PartialEq, Eq, Structural)]
pub enum DecodeError {
    /// A count byte of zero inside the stream.
    ZeroCount,
    /// A count byte promises more bytes than the stream holds.
    Truncated,
    /// The decoded bytes do not fit the output buffer.
    OutputFull,
}

/// Length of the run of non-zero bytes at the start of `p`.
pub open spec fn nonzero_run(p: Seq<u8>) -> nat
    decreases p.len(),
{
    if p.len() == 0 || p[0] == 0 {
        0
    } else {
        1 + nonzero_run(p.drop_first())
    }
}

/// The stuffed form of `p`, without the terminating zero.
///
/// Each block is a count byte `c` followed by `c - 1` data bytes. A count below
/// 255 stands for the data and one zero byte after it (none after the last
/// block); 255 stands for 254 data bytes and no zero.
pub open spec fn cobs_stuffed(p: Seq<u8>) -> Seq<u8>
    decreases p.len(),
{
    let n = nonzero_run(p) as int;
    if p.len() >= 254 && n >= 254 {
        seq![255u8] + p.take(254) + cobs_stuffed(p.skip(254))
    } else if n >= p.len() {
        seq![(p.len() + 1) as u8] + p
    } else {
        seq![(n + 1) as u8] + p.take(n as int) + cobs_stuffed(p.skip(n + 1))
    }
}

/// Output room that stuffing `n` bytes, and the terminator, can take at most.
pub open spec fn stuffed_capacity(n: int) -> int {
    n + n / 254 + 2
}

pub open spec fn prepend(pre: Seq<u8>, r: Result<Seq<u8>, DecodeError>) -> Result<
    Seq<u8>,
    DecodeError,
> {
    match r {
        Ok(s) => Ok(pre + s),
        Err(e) => Err(e),
    }
}

/// What decoding the stuffed stream `s` gives when at most `cap` bytes may be
/// written: the data, or the first error met reading left to right.
pub open spec fn cobs_unstuffed(s: Seq<u8>, cap: int) -> Result<Seq<u8>, DecodeError>
    decreases s.len(),
{
    if s.len() == 0 {
        Ok(Seq::empty())
    } else {
        let c = s[0] as int;
        let need = c - 1;
        let avail = s.len() - 1;
        if c == 0 {
            Err(DecodeError::ZeroCount)
        } else if need > avail && avail <= cap {
            Err(DecodeError::Truncated)
        } else if need > cap {
            Err(DecodeError::OutputFull)
        } else {
            let rest = s.skip(c);
            let zero = c < 255 && rest.len() > 0;
            if zero && need >= cap {
                Err(DecodeError::OutputFull)
            } else {
                let block = if zero {
                    s.subrange(1, c) + seq![0u8]
                } else {
                    s.subrange(1, c)
                };
                prepend(block, cobs_unstuffed(rest, cap - block.len()))
            }
        }
    }
}

proof fn lemma_run_bounds(p: Seq<u8>)
    ensures
        nonzero_run(p) <= p.len(),
        forall|j: int| 0 <= j < nonzero_run(p) ==> p[j] != 0,
        nonzero_run(p) < p.len() ==> p[nonzero_run(p) as int] == 0,
    decreases p.len(),
{
    if p.len() > 0 && p[0] != 0 {
        lemma_run_bounds(p.drop_first());
        assert forall|j: int| 0 <= j < nonzero_run(p) implies p[j] != 0 by {
            if j > 0 {
                assert(p[j] == p.drop_first()[j - 1]);
            }
        }
    }
}

proof fn lemma_run_exact(p: Seq<u8>, k: int)
    requires
        0 <= k <= p.len(),
        forall|j: int| 0 <= j < k ==> p[j] != 0,
    ensures
        nonzero_run(p) >= k,
        k == p.len() || p[k] == 0 ==> nonzero_run(p) == k,
    decreases k,
{
    if k > 0 {
        let q = p.drop_first();
        assert forall|j: int| 0 <= j < k - 1 implies q[j] != 0 by {
            assert(q[j] == p[j + 1]);
        }
        if k < p.len() {
            assert(q[k - 1] == p[k]);
        }
        lemma_run_exact(q, k - 1);
    } else {
        lemma_run_bounds(p);
    }
}

/// Stuffing is undone by unstuffing: for any bytes `payload`, decoding
/// `cobs_stuffed(payload)` into room for at least `payload.len()` bytes gives
/// back `payload` exactly.
pub proof fn cobs_round_trip(payload: Seq<u8>, cap: int)
    requires
        payload.len() <= cap,
    ensures
        (cobs_unstuffed(cobs_stuffed(payload), cap) matches Ok(d) && d == payload),
    decreases payload.len(),
{
    let p = payload;
    let n = nonzero_run(p) as int;
    lemma_run_bounds(p);
    let s = cobs_stuffed(p);
    if p.len() >= 254 && n >= 254 {
        let tail = p.skip(254);
        cobs_round_trip(tail, cap - 254);
        assert(s[0] == 255);
        assert(s.subrange(1, 255) =~= p.take(254));
        assert(s.skip(255) =~= cobs_stuffed(tail));
        assert(p.take(254) + tail =~= p);
        assert(cobs_unstuffed(s, cap) == prepend(p.take(254), cobs_unstuffed(s.skip(255), cap - 254)));
    } else if n >= p.len() {
        assert(s[0] as int == p.len() + 1);
        assert(s.subrange(1, p.len() as int + 1) =~= p);
        assert(s.skip(p.len() as int + 1) =~= Seq::<u8>::empty());
        assert(p + Seq::<u8>::empty() =~= p);
        assert(cobs_unstuffed(s, cap) == prepend(p, cobs_unstuffed(Seq::<u8>::empty(), cap - p.len())));
    } else {
        let tail = p.skip(n + 1);
        cobs_round_trip(tail, cap - n - 1);
        let st = cobs_stuffed(tail);
        assert(s[0] as int == n + 1);
        assert(s.subrange(1, n + 1) =~= p.take(n as int));
        assert(s.skip(n + 1) =~= st);
        assert(p.take(n as int) + seq![0u8] + tail =~= p);
        assert(cobs_unstuffed(st, cap - n - 1) matches Ok(d) && d == tail);
        assert(cobs_unstuffed(s, cap) == prepend(p.take(n) + seq![0u8], cobs_unstuffed(st, cap - n - 1)));
    }
}

/// Stuffs `input` into `output` and ends it with the `0x00` delimiter.
///
/// Fails, writing nothing, when `output` is shorter than the worst case for
/// the input's length; otherwise returns the number of bytes written.
pub fn cobs_encode(input: &[u8], output: &mut [u8]) -> (r: Result<usize, ()>)
    ensures
        final(output)@.len() == old(output)@.len(),
        (old(output)@.len() < stuffed_capacity(input@.len() as int)) <==> r.is_err(),
        r.is_err() ==> final(output)@ == old(output)@,
        r matches Ok(n) ==> {
            &&& n <= old(output)@.len()
            &&& n == cobs_stuffed(input@).len() + 1
            &&& final(output)@.take(n as int) == cobs_stuffed(input@) + seq![0u8]
            &&& final(output)@.skip(n as int) == old(output)@.skip(n as int)
        },
{
    let len = input.len();
    if output.len() < 2 || output.len() - 2 < len || output.len() - 2 - len < len / 254 {
        return Err(());
    }
    let mut read: usize = 0;
    let mut write: usize = 1;
    let mut code_index: usize = 0;
    let mut code: u8 = 1;
    let ghost mut start: int = 0;
    assert(input@.skip(0) =~= input@);
    assert(output@.take(0) + cobs_stuffed(input@) =~= cobs_stuffed(input@));
    while read < len
        invariant
            len == input@.len(),
            output@.len() == old(output)@.len(),
            output@.len() >= stuffed_capacity(len as int),
            0 <= start <= read <= len,
            code as int == read - start + 1,
            code < 255,
            write as int == code_index + code,
            code_index <= start + start / 254,
            forall|j: int| start <= j < read ==> input@[j] != 0,
            forall|j: int|
                code_index < j < write ==> output@[j] == input@[start + j - code_index - 1],
            output@.take(code_index as int) + cobs_stuffed(input@.skip(start)) == cobs_stuffed(
                input@,
            ),
            forall|j: int| write <= j < output@.len() ==> output@[j] == old(output)@[j],
        decreases len - read,
    {
        let ghost q = input@.skip(start);
        let ghost k = read - start;
        assert forall|j: int| 0 <= j < k implies q[j] != 0 by {
            assert(q[j] == input@[start + j]);
        }
        if input[read] == 0 {
            proof {
                assert(q[k] == 0);
                lemma_run_exact(q, k);
                assert(q.take(k) =~= output@.subrange(code_index + 1, write as int));
                assert(q.skip(k + 1) =~= input@.skip(read + 1));
            }
            let ghost before = output@;
            output[code_index] = code;
            proof {
                assert(output@.take(write as int) =~= before.take(code_index as int) + seq![code]
                    + q.take(k));
            }
            code = 1;
            code_index = write;
            write = write + 1;
            proof {
                start = read + 1;
            }
        } else {
            output[write] = input[read];
            write = write + 1;
            code = code + 1;
            if code == 0xFF {
                proof {
                    assert forall|j: int| 0 <= j < 254 implies q[j] != 0 by {
                        assert(q[j] == input@[start + j]);
                    }
                    lemma_run_exact(q, 254);
                    assert(q.take(254) =~= output@.subrange(code_index + 1, write as int));
                    assert(q.skip(254) =~= input@.skip(read + 1));
                }
                let ghost before = output@;
                output[code_index] = code;
                proof {
                    assert(output@.take(write as int) =~= before.take(code_index as int) + seq![
                        255u8,
                    ] + q.take(254));
                }
                code = 1;
                code_index = write;
                write = write + 1;
                proof {
                    start = read + 1;
                }
            }
        }
        read = read + 1;
    }
    let ghost q = input@.skip(start);
    let ghost k = read - start;
    proof {
        assert forall|j: int| 0 <= j < k implies q[j] != 0 by {
            assert(q[j] == input@[start + j]);
        }
        lemma_run_exact(q, k);
        assert(q =~= output@.subrange(code_index + 1, write as int));
    }
    let ghost before = output@;
    output[code_index] = code;
    output[write] = 0;
    proof {
        assert(output@.take(write + 1) =~= before.take(code_index as int) + cobs_stuffed(q) + seq![
            0u8,
        ]);
        assert(output@.skip(write + 1) =~= old(output)@.skip(write + 1));
    }
    Ok(write + 1)
}

/// Whether index `k` of the stuffed stream `s` is where a block's count byte
/// stands: following the count bytes from the start, each block fitting
/// inside the stream, reaches `k`.
pub open spec fn is_count_position(s: Seq<u8>, k: int) -> bool
    decreases k,
{
    if k == 0 {
        s.len() > 0
    } else {
        &&& s.len() > 0
        &&& s[0] != 0
        &&& s[0] <= k
        &&& is_count_position(s.skip(s[0] as int), k - s[0])
    }
}

/// A stream in which a count byte is zero never decodes: whatever the
/// output room, decoding fails.
pub proof fn zero_count_rejected(s: Seq<u8>, cap: int, k: int)
    requires
        0 <= k < s.len(),
        is_count_position(s, k),
        s[k] == 0,
    ensures
        cobs_unstuffed(s, cap) is Err,
    decreases s.len(),
{
    if k > 0 {
        let c = s[0] as int;
        let rest = s.skip(c);
        assert(rest[k - c] == s[k]);
        zero_count_rejected(rest, cap - (c - 1), k - c);
        zero_count_rejected(rest, cap - c, k - c);
    }
}

proof fn lemma_prepend_assoc(a: Seq<u8>, b: Seq<u8>, r: Result<Seq<u8>, DecodeError>)
    ensures
        prepend(a, prepend(b, r)) == prepend(a + b, r),
{
    if let Ok(x) = r {
        assert(a + (b + x) =~= (a + b) + x);
    }
}

/// Decodes the stuffed stream `input` (its delimiter already removed) into
/// `output`, returning the number of bytes decoded.
pub fn cobs_decode(input: &[u8], output: &mut [u8]) -> (r: Result<usize, DecodeError>)
    ensures
        final(output)@.len() == old(output)@.len(),
        r matches Ok(n) ==> n <= old(output)@.len(),
        match cobs_unstuffed(input@, old(output)@.len() as int) {
            Ok(d) => r matches Ok(n) && n == d.len() && final(output)@.take(n as int) == d
                && final(output)@.skip(n as int) == old(output)@.skip(n as int),
            Err(e) => (r matches Err(f) && f == e),
        },
{
    let ghost s = input@;
    let ghost cap = output@.len() as int;
    if input.is_empty() {
        assert(output@.take(0) =~= Seq::<u8>::empty());
        return Ok(0);
    }
    let mut read: usize = 0;
    let mut write: usize = 0;
    assert(s.skip(0) =~= s);
    assert(output@.take(0) + Seq::<u8>::empty() =~= Seq::<u8>::empty());

    assert(Seq::<u8>::empty() + Seq::<u8>::empty() =~= Seq::<u8>::empty());
    assert(prepend(Seq::empty(), cobs_unstuffed(s, cap)) == cobs_unstuffed(s, cap)) by {
        if let Ok(x) = cobs_unstuffed(s, cap) {
            assert(Seq::<u8>::empty() + x =~= x);
        }
    }
    while read < input.len()
        invariant
            s == input@,
            cap == output@.len(),
            output@.len() == old(output)@.len(),
            read <= s.len(),
            write <= cap,
            forall|j: int| write <= j < cap ==> output@[j] == old(output)@[j],
            cobs_unstuffed(s, cap) == prepend(
                output@.take(write as int),
                cobs_unstuffed(s.skip(read as int), cap - write),
            ),
        decreases s.len() - read,
    {
        let ghost t = s.skip(read as int);
        let ghost w0 = write as int;
        let ghost p0 = read as int;
        let ghost pre = output@.take(w0);
        let code = input[read];
        read = read + 1;
        if code == 0 {
            return Err(DecodeError::ZeroCount);
        }
        let mut k: u8 = 0;
        while k < code - 1
            invariant
                s == input@,
                cap == output@.len(),
                output@.len() == old(output)@.len(),
                t == s.skip(p0),
                0 <= p0 < s.len(),
                0 <= w0,
                t[0] == code,
                code > 0,
                k < code,
                read == p0 + 1 + k,
                write == w0 + k,
                read <= s.len(),
                write <= cap,
                forall|j: int| write <= j < cap ==> output@[j] == old(output)@[j],
                forall|j: int| w0 <= j < write ==> output@[j] == t[1 + j - w0],
                output@.take(w0) == pre,
                cobs_unstuffed(s, cap) == prepend(pre, cobs_unstuffed(t, cap - w0)),
            decreases code - k,
        {
            if read >= input.len() {
                return Err(DecodeError::Truncated);
            }
            if write >= output.len() {
                return Err(DecodeError::OutputFull);
            }
            assert(t[1 + k] == s[read as int]);
            let ghost before = output@;
            output[write] = input[read];
            assert(output@.take(w0) =~= before.take(w0));
            assert(output@[write as int] == t[1 + k]);
            write = write + 1;
            read = read + 1;
            k = k + 1;
        }
        let ghost rest = t.skip(code as int);
        assert(rest =~= s.skip(read as int));
        if code < 0xFF && read < input.len() {
            if write >= output.len() {
                return Err(DecodeError::OutputFull);
            }
            output[write] = 0;
            write = write + 1;
            let ghost block = t.subrange(1, code as int) + seq![0u8];
            assert(output@.take(write as int) =~= pre + block);
            proof { lemma_prepend_assoc(pre, block, cobs_unstuffed(rest, cap - write as int)); }
        } else {
            let ghost block = t.subrange(1, code as int);
            assert(output@.take(write as int) =~= pre + block);
            proof { lemma_prepend_assoc(pre, block, cobs_unstuffed(rest, cap - write as int)); }
        }
    }
    assert(s.skip(read as int) =~= Seq::<u8>::empty());
    assert(output@.take(write as int) + Seq::<u8>::empty() =~= output@.take(write as int));
    assert(output@.skip(write as int) =~= old(output)@.skip(write as int));
    Ok(write)
}

} // verus!
