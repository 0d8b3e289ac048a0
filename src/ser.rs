//! The binary layout of stored results.
//!
//! Sampling data is an 8-byte count `N`, then `N` 8-byte iteration counts,
//! then `N` 16-byte elapsed times; timing data is four 16-byte fields. All
//! integers are little-endian.
use vstd::prelude::*;
use crate::benching::SamplingData;
use crate::bytes::{
    le_bytes, le_value, lemma_le_bytes_injective, lemma_le_bytes_len, lemma_le_bytes_of_value,
    lemma_le_value_bound, lemma_le_value_of_bytes, pow256, push_le, read_le,
};
use crate::error::Error;
use crate::timing::TimingData;

verus! {

/// The concatenated 8-byte encodings of `s`.
pub open spec fn u64s_bytes(s: Seq<u64>) -> Seq<u8>
    decreases s.len(),
{
    if s.len() == 0 {
        Seq::empty()
    } else {
        u64s_bytes(s.drop_last()) + le_bytes(s.last() as nat, 8)
    }
}

/// The concatenated 16-byte encodings of `s`.
pub open spec fn u128s_bytes(s: Seq<u128>) -> Seq<u8>
    decreases s.len(),
{
    if s.len() == 0 {
        Seq::empty()
    } else {
        u128s_bytes(s.drop_last()) + le_bytes(s.last() as nat, 16)
    }
}

/// The stored form of sampling data with these samples and times.
pub open spec fn sampling_bytes(samples: Seq<u64>, times: Seq<u128>) -> Seq<u8> {
    le_bytes(samples.len(), 8) + u64s_bytes(samples) + u128s_bytes(times)
}

/// The sample count that the header of a stored buffer announces.
pub open spec fn header_count(buf: Seq<u8>) -> nat {
    le_value(buf.subrange(0, 8))
}

/// The length a stored buffer must have for the count in its header.
pub open spec fn expected_len(buf: Seq<u8>) -> nat {
    8 + 16 * header_count(buf) + 8 * header_count(buf)
}

/// The stored form of timing data.
pub open spec fn timing_bytes(d: TimingData) -> Seq<u8> {
    le_bytes(d.min_nanos as nat, 16) + le_bytes(d.max_nanos as nat, 16) + le_bytes(
        d.elapsed as nat,
        16,
    ) + le_bytes(d.iterations as nat, 16)
}

proof fn lemma_pow256_8()
    ensures
        pow256(8) == u64::MAX + 1,
{
    reveal_with_fuel(pow256, 9);
}

proof fn lemma_u64s_bytes_len(s: Seq<u64>)
    ensures
        u64s_bytes(s).len() == 8 * s.len(),
    decreases s.len(),
{
    if s.len() > 0 {
        lemma_u64s_bytes_len(s.drop_last());
        lemma_le_bytes_len(s.last() as nat, 8);
    }
}

proof fn lemma_u128s_bytes_len(s: Seq<u128>)
    ensures
        u128s_bytes(s).len() == 16 * s.len(),
    decreases s.len(),
{
    if s.len() > 0 {
        lemma_u128s_bytes_len(s.drop_last());
        lemma_le_bytes_len(s.last() as nat, 16);
    }
}

proof fn lemma_u64s_bytes_injective(s: Seq<u64>, t: Seq<u64>)
    requires
        s.len() == t.len(),
        u64s_bytes(s) == u64s_bytes(t),
    ensures
        s == t,
    decreases s.len(),
{
    if s.len() > 0 {
        let (a, b) = (s.drop_last(), t.drop_last());
        lemma_u64s_bytes_len(a);
        lemma_u64s_bytes_len(b);
        lemma_le_bytes_len(s.last() as nat, 8);
        lemma_le_bytes_len(t.last() as nat, 8);
        let n = 8 * a.len() as int;
        let whole = u64s_bytes(s);
        assert(u64s_bytes(a) =~= whole.subrange(0, n));
        assert(u64s_bytes(b) =~= whole.subrange(0, n));
        assert(le_bytes(s.last() as nat, 8) =~= whole.subrange(n, n + 8));
        assert(le_bytes(t.last() as nat, 8) =~= whole.subrange(n, n + 8));
        lemma_u64s_bytes_injective(a, b);
        lemma_pow256_8();
        lemma_le_bytes_injective(s.last() as nat, t.last() as nat, 8);
        assert(s =~= a.push(s.last()));
        assert(t =~= b.push(t.last()));
    }
}

proof fn lemma_u128s_bytes_injective(s: Seq<u128>, t: Seq<u128>)
    requires
        s.len() == t.len(),
        u128s_bytes(s) == u128s_bytes(t),
    ensures
        s == t,
    decreases s.len(),
{
    if s.len() > 0 {
        let (a, b) = (s.drop_last(), t.drop_last());
        lemma_u128s_bytes_len(a);
        lemma_u128s_bytes_len(b);
        lemma_le_bytes_len(s.last() as nat, 16);
        lemma_le_bytes_len(t.last() as nat, 16);
        let n = 16 * a.len() as int;
        let whole = u128s_bytes(s);
        assert(u128s_bytes(a) =~= whole.subrange(0, n));
        assert(u128s_bytes(b) =~= whole.subrange(0, n));
        assert(le_bytes(s.last() as nat, 16) =~= whole.subrange(n, n + 16));
        assert(le_bytes(t.last() as nat, 16) =~= whole.subrange(n, n + 16));
        lemma_u128s_bytes_injective(a, b);
        lemma_pow256_le16_top();
        lemma_le_bytes_injective(s.last() as nat, t.last() as nat, 16);
        assert(s =~= a.push(s.last()));
        assert(t =~= b.push(t.last()));
    }
}

proof fn lemma_pow256_le16_top()
    ensures
        pow256(16) == u128::MAX + 1,
{
    crate::bytes::lemma_pow256_le16(16);
}

/// Encodes sampling data: the sample count, the iteration counts, then the times.
pub fn ser_sampling_data(sampling_data: &SamplingData) -> (r: Vec<u8>)
    ensures
        r@ == sampling_bytes(sampling_data.samples@, sampling_data.times@),
{
    let mut v: Vec<u8> = Vec::new();
    let len = sampling_data.samples.len();
    push_le(&mut v, len as u128, 8);
    let ghost head = v@;
    let mut i: usize = 0;
    while i < sampling_data.samples.len()
        invariant
            i <= sampling_data.samples@.len(),
            v@ == head + u64s_bytes(sampling_data.samples@.subrange(0, i as int)),
        decreases sampling_data.samples@.len() - i,
    {
        let ghost done = sampling_data.samples@.subrange(0, i as int);
        push_le(&mut v, sampling_data.samples[i] as u128, 8);
        i = i + 1;
        let ghost now = sampling_data.samples@.subrange(0, i as int);
        assert(now.drop_last() =~= done);
        assert(v@ =~= head + u64s_bytes(now));
    }
    assert(sampling_data.samples@.subrange(0, i as int) =~= sampling_data.samples@);
    let ghost mid = v@;
    let mut j: usize = 0;
    while j < sampling_data.times.len()
        invariant
            j <= sampling_data.times@.len(),
            v@ == mid + u128s_bytes(sampling_data.times@.subrange(0, j as int)),
        decreases sampling_data.times@.len() - j,
    {
        let ghost done = sampling_data.times@.subrange(0, j as int);
        push_le(&mut v, sampling_data.times[j], 16);
        j = j + 1;
        let ghost now = sampling_data.times@.subrange(0, j as int);
        assert(now.drop_last() =~= done);
        assert(v@ =~= mid + u128s_bytes(now));
    }
    assert(sampling_data.times@.subrange(0, j as int) =~= sampling_data.times@);
    v
}

/// Decodes sampling data. A buffer shorter than the header, or whose length
/// differs from `8 + 16 * N + 8 * N` for the count `N` in its header, is
/// refused; otherwise the result is the data whose encoding is the buffer.
pub fn try_de_sampling_data(buf: &[u8]) -> (r: Result<SamplingData, Error>)
    ensures
        buf@.len() < 8 ==> r == Err::<SamplingData, Error>(Error::TooShort { found: buf@.len() as usize }),
        buf@.len() >= 8 && buf@.len() != expected_len(buf@) ==> r == Err::<SamplingData, Error>(
            Error::LengthMismatch { expected: expected_len(buf@) as u128, found: buf@.len() as usize },
        ),
        r is Ok <==> buf@.len() >= 8 && buf@.len() == expected_len(buf@),
        r matches Ok(d) ==> d.wf() && sampling_bytes(d.samples@, d.times@) == buf@,
{
    let buf_len = buf.len();
    if buf_len < 8 {
        return Err(Error::TooShort { found: buf_len });
    }
    let len128 = read_le(buf, 0, 8);
    proof {
        lemma_le_value_bound(buf@.subrange(0, 8));
        lemma_pow256_8();
    }
    let len = len128 as u64;
    let expected_total_len: u128 = 8 + len128 * 16 + len128 * 8;
    if buf_len as u128 != expected_total_len {
        return Err(Error::LengthMismatch { expected: expected_total_len, found: buf_len });
    }
    let mut samples: Vec<u64> = Vec::new();
    let mut times: Vec<u128> = Vec::new();
    let ghost n = len as int;
    let mut i: u64 = 0;
    while i < len
        invariant
            i <= len,
            n == len,
            buf@.len() == buf_len == 8 + 24 * n,
            samples@.len() == i,
            times@.len() == i,
            u64s_bytes(samples@) == buf@.subrange(8, 8 + 8 * i),
            u128s_bytes(times@) == buf@.subrange(8 + 8 * n, 8 + 8 * n + 16 * i),
        decreases len - i,
    {
        let sample_offset = (8 + i * 8) as usize;
        let sample = read_le(buf, sample_offset, 8);
        let times_offset = (8 + len * 8 + i * 16) as usize;
        let time = read_le(buf, times_offset, 16);
        proof {
            let sb = buf@.subrange(sample_offset as int, sample_offset + 8);
            let tb = buf@.subrange(times_offset as int, times_offset + 16);
            lemma_le_value_bound(sb);
            lemma_pow256_8();
            lemma_le_bytes_of_value(sb);
            lemma_le_bytes_of_value(tb);
        }
        let ghost (old_samples, old_times) = (samples@, times@);
        samples.push(sample as u64);
        times.push(time);
        proof {
            assert(samples@.drop_last() =~= old_samples);
            assert(times@.drop_last() =~= old_times);
            assert(buf@.subrange(8, 8 + 8 * (i + 1)) =~= buf@.subrange(8, 8 + 8 * i)
                + buf@.subrange(8 + 8 * i, 8 + 8 * i + 8));
            assert(buf@.subrange(8 + 8 * n, 8 + 8 * n + 16 * (i + 1)) =~= buf@.subrange(
                8 + 8 * n,
                8 + 8 * n + 16 * i,
            ) + buf@.subrange(8 + 8 * n + 16 * i, 8 + 8 * n + 16 * i + 16));
        }
        i = i + 1;
    }
    proof {
        lemma_le_bytes_of_value(buf@.subrange(0, 8));
        assert(buf@ =~= buf@.subrange(0, 8) + buf@.subrange(8, 8 + 8 * n) + buf@.subrange(
            8 + 8 * n,
            8 + 24 * n,
        ));
    }
    Ok(SamplingData { samples, times })
}

/// Decoding what `ser_sampling_data` wrote always succeeds and gives back the
/// same samples and times, the empty case included: the encoding has the
/// length its header announces, and no other well-formed data has the same
/// encoding.
pub proof fn lemma_sampling_round_trip(x: SamplingData, y: SamplingData)
    requires
        x.wf(),
        y.wf(),
        x.samples@.len() <= u64::MAX,
        y.samples@.len() <= u64::MAX,
    ensures
        sampling_bytes(x.samples@, x.times@).len() >= 8,
        sampling_bytes(x.samples@, x.times@).len() == expected_len(
            sampling_bytes(x.samples@, x.times@),
        ),
        sampling_bytes(y.samples@, y.times@) == sampling_bytes(x.samples@, x.times@) ==> y.samples@
            == x.samples@ && y.times@ == x.times@,
{
    let (xs, xt, ys, yt) = (x.samples@, x.times@, y.samples@, y.times@);
    let bx = sampling_bytes(xs, xt);
    let by = sampling_bytes(ys, yt);
    lemma_pow256_8();
    lemma_le_bytes_len(xs.len(), 8);
    lemma_le_bytes_len(ys.len(), 8);
    lemma_u64s_bytes_len(xs);
    lemma_u64s_bytes_len(ys);
    lemma_u128s_bytes_len(xt);
    lemma_u128s_bytes_len(yt);
    assert(bx.subrange(0, 8) =~= le_bytes(xs.len(), 8));
    lemma_le_value_of_bytes(xs.len(), 8);
    if by == bx {
        assert(by.subrange(0, 8) =~= le_bytes(ys.len(), 8));
        lemma_le_bytes_injective(xs.len(), ys.len(), 8);
        let n = 8 * xs.len() as int;
        assert(u64s_bytes(xs) =~= bx.subrange(8, 8 + n));
        assert(u64s_bytes(ys) =~= by.subrange(8, 8 + n));
        lemma_u64s_bytes_injective(xs, ys);
        assert(u128s_bytes(xt) =~= bx.subrange(8 + n, bx.len() as int));
        assert(u128s_bytes(yt) =~= by.subrange(8 + n, by.len() as int));
        lemma_u128s_bytes_injective(xt, yt);
    }
}

/// Encodes timing data as its four fields, 16 bytes each.
pub fn ser_timing_data(run_data: TimingData) -> (r: Vec<u8>)
    ensures
        r@ == timing_bytes(run_data),
{
    let mut v: Vec<u8> = Vec::new();
    push_le(&mut v, run_data.min_nanos, 16);
    push_le(&mut v, run_data.max_nanos, 16);
    push_le(&mut v, run_data.elapsed, 16);
    push_le(&mut v, run_data.iterations, 16);
    assert(v@ =~= timing_bytes(run_data));
    v
}

/// Decodes timing data; any length but 64 bytes is refused.
pub fn try_de_timing_data(buf: &[u8]) -> (r: Result<TimingData, Error>)
    ensures
        buf@.len() != 64 ==> r == Err::<TimingData, Error>(
            Error::LengthMismatch { expected: 64, found: buf@.len() as usize },
        ),
        r matches Ok(d) ==> timing_bytes(d) == buf@,
        r is Ok <==> buf@.len() == 64,
{
    if buf.len() != 64 {
        return Err(Error::LengthMismatch { expected: 64, found: buf.len() });
    }
    let min_nanos = read_le(buf, 0, 16);
    let max_nanos = read_le(buf, 16, 16);
    let elapsed = read_le(buf, 32, 16);
    let iterations = read_le(buf, 48, 16);
    proof {
        lemma_le_bytes_of_value(buf@.subrange(0, 16));
        lemma_le_bytes_of_value(buf@.subrange(16, 32));
        lemma_le_bytes_of_value(buf@.subrange(32, 48));
        lemma_le_bytes_of_value(buf@.subrange(48, 64));
        assert(buf@ =~= buf@.subrange(0, 16) + buf@.subrange(16, 32) + buf@.subrange(32, 48)
            + buf@.subrange(48, 64));
    }
    Ok(TimingData { min_nanos, max_nanos, elapsed, iterations })
}

/// Decoding what `ser_timing_data` wrote gives back the same timing data.
pub proof fn lemma_timing_round_trip(x: TimingData, y: TimingData)
    ensures
        timing_bytes(x).len() == 64,
        timing_bytes(y) == timing_bytes(x) ==> y == x,
{
    lemma_pow256_le16_top();
    lemma_le_bytes_len(x.min_nanos as nat, 16);
    lemma_le_bytes_len(x.max_nanos as nat, 16);
    lemma_le_bytes_len(x.elapsed as nat, 16);
    lemma_le_bytes_len(x.iterations as nat, 16);
    lemma_le_bytes_len(y.min_nanos as nat, 16);
    lemma_le_bytes_len(y.max_nanos as nat, 16);
    lemma_le_bytes_len(y.elapsed as nat, 16);
    lemma_le_bytes_len(y.iterations as nat, 16);
    let (bx, by) = (timing_bytes(x), timing_bytes(y));
    if by == bx {
        assert(bx.subrange(0, 16) =~= le_bytes(x.min_nanos as nat, 16));
        assert(by.subrange(0, 16) =~= le_bytes(y.min_nanos as nat, 16));
        assert(bx.subrange(16, 32) =~= le_bytes(x.max_nanos as nat, 16));
        assert(by.subrange(16, 32) =~= le_bytes(y.max_nanos as nat, 16));
        assert(bx.subrange(32, 48) =~= le_bytes(x.elapsed as nat, 16));
        assert(by.subrange(32, 48) =~= le_bytes(y.elapsed as nat, 16));
        assert(bx.subrange(48, 64) =~= le_bytes(x.iterations as nat, 16));
        assert(by.subrange(48, 64) =~= le_bytes(y.iterations as nat, 16));
        lemma_le_bytes_injective(x.min_nanos as nat, y.min_nanos as nat, 16);
        lemma_le_bytes_injective(x.max_nanos as nat, y.max_nanos as nat, 16);
        lemma_le_bytes_injective(x.elapsed as nat, y.elapsed as nat, 16);
        lemma_le_bytes_injective(x.iterations as nat, y.iterations as nat, 16);
    }
}

} // verus!
