//! RVL (run-length / variable-length) depth decoding.
//!
//! An RVL payload is the 12-byte config header, the little-endian `width` and
//! `height`, then a stream of little-endian 32-bit words. Each word holds eight
//! 4-bit nibbles, read from the most significant end. An integer is a run of
//! nibbles carrying three payload bits each (least significant group first),
//! the top bit of a nibble saying that another follows. The stream alternates a
//! count of zero pixels with a count of non-zero pixels, the latter followed by
//! that many zigzag-encoded deltas from the previous non-zero depth.

use vstd::prelude::*;
use crate::error::{StageError, is_invalid_message};
use crate::text::{decimal, decimal_string, push_str};
use super::{DecodedDepthFrame, dimensions_overflow_message, value_count_message};

verus! {

// ---------------------------------------------------------------------------
// The model: what a stream decodes to.
// ---------------------------------------------------------------------------

/// The little-endian 32-bit word at byte offset `i`.
pub open spec fn le_word(data: Seq<u8>, i: int) -> u32 {
    (data[i] as u32) | ((data[i + 1] as u32) << 8u32) | ((data[i + 2] as u32) << 16u32) | ((
    data[i + 3] as u32) << 24u32)
}

/// Whether the word holding nibble `n` lies entirely within `data`.
pub open spec fn nibble_available(data: Seq<u8>, n: int) -> bool {
    0 <= n && 4 * (n / 8) + 4 <= data.len()
}

/// Nibble `n` of the stream: nibble `n % 8` of word `n / 8`, counted from the
/// most significant end.
pub open spec fn nibble_at(data: Seq<u8>, n: int) -> u32 {
    (le_word(data, 4 * (n / 8)) >> ((28 - 4 * (n % 8)) as u32)) & 0xfu32
}

/// The message for a stream that ends inside a word.
pub open spec fn truncated_message() -> Seq<char> {
    "compressedDepth RVL payload truncated"@
}

/// The message for an integer that does not fit in 32 bits.
pub open spec fn integer_overflow_message() -> Seq<char> {
    "compressedDepth RVL integer overflow"@
}

/// The message for a run that goes past the declared pixel count.
pub open spec fn expands_message() -> Seq<char> {
    "compressedDepth RVL expands past the declared image size"@
}

/// The message for a depth that leaves the `i32` range.
pub open spec fn delta_overflow_message() -> Seq<char> {
    "compressedDepth RVL delta overflow"@
}

/// The message for a depth that leaves the `u16` range.
pub open spec fn out_of_range_message() -> Seq<char> {
    "compressedDepth RVL produced an out-of-range depth value"@
}

/// Decodes the rest of an integer from nibble `n` on, `value` holding the bits
/// read so far and `shift` the position of the next three.
/// `Ok((v, m))`: the integer is `v` and the next integer starts at nibble `m`.
pub open spec fn vle_from(data: Seq<u8>, n: int, shift: u32, value: u32) -> Result<
    (u32, int),
    Seq<char>,
>
    decreases 32 - shift,
{
    if !nibble_available(data, n) {
        Err(truncated_message())
    } else if shift >= 32 {
        Err(integer_overflow_message())
    } else {
        let nib = nibble_at(data, n);
        let bits = (nib & 7u32) << shift;
        if value as int + bits as int > u32::MAX as int {
            Err(integer_overflow_message())
        } else {
            let v2 = (value + bits) as u32;
            if nib & 8u32 == 0 {
                Ok((v2, n + 1))
            } else if shift + 3 >= 32 {
                Err(integer_overflow_message())
            } else {
                vle_from(data, n + 1, (shift + 3) as u32, v2)
            }
        }
    }
}

/// Decodes the integer that starts at nibble `n`.
pub open spec fn vle(data: Seq<u8>, n: int) -> Result<(u32, int), Seq<char>> {
    vle_from(data, n, 0, 0)
}

/// The signed delta that a zigzag code stands for: `0, -1, 1, -2, 2, ...`.
pub open spec fn zigzag(e: u32) -> int {
    if e % 2 == 0 {
        (e / 2) as int
    } else {
        -((e / 2) as int) - 1
    }
}

/// Decodes one non-zero depth at nibble `n` after depth `prev`:
/// `Ok((depth, next nibble, new previous))`.
pub open spec fn next_value(data: Seq<u8>, n: int, prev: i32) -> Result<(u16, int, i32), Seq<char>> {
    match vle(data, n) {
        Err(m) => Err(m),
        Ok((e, n1)) => {
            let cur = prev + zigzag(e);
            if cur < i32::MIN || cur > i32::MAX {
                Err(delta_overflow_message())
            } else if cur < 0 || cur > u16::MAX {
                Err(out_of_range_message())
            } else {
                Ok((cur as u16, n1, cur as i32))
            }
        },
    }
}

/// Decodes `k` non-zero depths in turn from nibble `n` after depth `prev`.
pub open spec fn next_values(data: Seq<u8>, n: int, prev: i32, k: nat) -> Result<
    (Seq<u16>, int, i32),
    Seq<char>,
>
    decreases k,
{
    if k == 0 {
        Ok((Seq::empty(), n, prev))
    } else {
        match next_values(data, n, prev, (k - 1) as nat) {
            Err(m) => Err(m),
            Ok((vs, n1, p1)) => match next_value(data, n1, p1) {
                Err(m) => Err(m),
                Ok((d, n2, p2)) => Ok((vs.push(d), n2, p2)),
            },
        }
    }
}

/// One run of zeros at nibble `n`, appended to `out` without exceeding `count` pixels.
pub open spec fn zero_run(data: Seq<u8>, n: int, out: Seq<u16>, count: int) -> Result<
    (Seq<u16>, int),
    Seq<char>,
> {
    match vle(data, n) {
        Err(m) => Err(m),
        Ok((z, n1)) => if out.len() + z > count {
            Err(expands_message())
        } else {
            Ok((out + Seq::new(z as nat, |i: int| 0u16), n1))
        },
    }
}

/// One run of non-zero depths at nibble `n`, appended to `out` without exceeding `count` pixels.
pub open spec fn nonzero_run(data: Seq<u8>, n: int, out: Seq<u16>, prev: i32, count: int) -> Result<
    (Seq<u16>, int, i32),
    Seq<char>,
> {
    match vle(data, n) {
        Err(m) => Err(m),
        Ok((k, n1)) => if out.len() + k > count {
            Err(expands_message())
        } else {
            match next_values(data, n1, prev, k as nat) {
                Err(m) => Err(m),
                Ok((vs, n2, p2)) => Ok((out + vs, n2, p2)),
            }
        },
    }
}

pub proof fn lemma_vle_from_advances(data: Seq<u8>, n: int, shift: u32, value: u32)
    ensures
        vle_from(data, n, shift, value) matches Ok((_, m)) ==> n < m <= 2 * data.len(),
    decreases 32 - shift,
{
    if nibble_available(data, n) && shift < 32 {
        let nib = nibble_at(data, n);
        let bits = (nib & 7u32) << shift;
        if value as int + bits as int <= u32::MAX as int && nib & 8u32 != 0 && shift + 3 < 32 {
            lemma_vle_from_advances(data, n + 1, (shift + 3) as u32, (value + bits) as u32);
        }
    }
}

/// Decoding an integer consumes at least one nibble and stays within the stream.
pub proof fn lemma_vle_advances(data: Seq<u8>, n: int)
    ensures
        vle(data, n) matches Ok((_, m)) ==> n < m <= 2 * data.len(),
{
    lemma_vle_from_advances(data, n, 0, 0);
}

pub proof fn lemma_next_values_advance(data: Seq<u8>, n: int, prev: i32, k: nat)
    ensures
        next_values(data, n, prev, k) matches Ok((vs, m, _)) ==> vs.len() == k && n <= m && (k
            > 0 ==> m <= 2 * data.len()),
    decreases k,
{
    if k > 0 {
        lemma_next_values_advance(data, n, prev, (k - 1) as nat);
        if let Ok((vs, n1, p1)) = next_values(data, n, prev, (k - 1) as nat) {
            lemma_vle_advances(data, n1);
        }
    }
}

/// Expands the stream from nibble `n` on, after `out` and depth `prev`, into
/// `count` pixels.
pub open spec fn expand(data: Seq<u8>, n: int, out: Seq<u16>, prev: i32, count: int) -> Result<
    Seq<u16>,
    Seq<char>,
>
    decreases 2 * data.len() - n,
{
    if out.len() >= count {
        Ok(out)
    } else {
        match zero_run(data, n, out, count) {
            Err(m) => Err(m),
            Ok((out1, n1)) => match nonzero_run(data, n1, out1, prev, count) {
                Err(m) => Err(m),
                Ok((out2, n2, p2)) => {
                    proof {
                        lemma_vle_advances(data, n);
                        lemma_vle_advances(data, n1);
                        if let Ok((k, n3)) = vle(data, n1) {
                            lemma_next_values_advance(data, n3, prev, k as nat);
                        }
                    }
                    expand(data, n2, out2, p2, count)
                },
            },
        }
    }
}

/// What an RVL stream decodes to for a frame of `count` pixels.
pub open spec fn rvl_stream_decoding(stream: Seq<u8>, count: int) -> Result<Seq<u16>, Seq<char>> {
    expand(stream, 0, Seq::empty(), 0, count)
}

/// The message for a payload shorter than its fixed header.
pub open spec fn too_short_message(len: nat) -> Seq<char> {
    "compressedDepth RVL payload too short: "@ + decimal(len) + " bytes (minimum 20)"@
}

/// The message for a payload declaring a zero width or height.
pub open spec fn non_positive_message(width: u32, height: u32) -> Seq<char> {
    "compressedDepth RVL has non-positive dimensions: "@ + decimal(width as nat) + "x"@ + decimal(
        height as nat,
    )
}

/// The message for declared dimensions whose pixel count does not fit in `usize`.
pub open spec fn rvl_dimensions_overflow_message() -> Seq<char> {
    "compressedDepth RVL dimensions overflow"@
}

/// What a whole `compressedDepth rvl` payload decodes to: `(width, height, depths)`.
pub open spec fn rvl_payload_decoding(data: Seq<u8>) -> Result<(u32, u32, Seq<u16>), Seq<char>> {
    if data.len() < 20 {
        Err(too_short_message(data.len()))
    } else {
        let width = le_word(data, 12);
        let height = le_word(data, 16);
        if width == 0 || height == 0 {
            Err(non_positive_message(width, height))
        } else if width as int * height as int > usize::MAX {
            Err(rvl_dimensions_overflow_message())
        } else {
            match rvl_stream_decoding(data.subrange(20, data.len() as int), width * height) {
                Err(m) => Err(m),
                Ok(values) => Ok((width, height, values)),
            }
        }
    }
}

/// A successful expansion fills exactly the declared pixel count.
pub proof fn lemma_expand_length(data: Seq<u8>, n: int, out: Seq<u16>, prev: i32, count: int)
    requires
        out.len() <= count,
    ensures
        expand(data, n, out, prev, count) matches Ok(v) ==> v.len() == count,
    decreases 2 * data.len() - n,
{
    if out.len() < count {
        if let Ok((out1, n1)) = zero_run(data, n, out, count) {
            if let Ok((out2, n2, p2)) = nonzero_run(data, n1, out1, prev, count) {
                lemma_vle_advances(data, n);
                lemma_vle_advances(data, n1);
                if let Ok((k, n3)) = vle(data, n1) {
                    lemma_next_values_advance(data, n3, prev, k as nat);
                }
                lemma_expand_length(data, n2, out2, p2, count);
            }
        }
    }
}

// ---------------------------------------------------------------------------
// The decoder.
// ---------------------------------------------------------------------------

proof fn lemma_word_shift(w: u32, k: u32)
    requires
        k < 8,
    ensures
        ((w << ((4 * k) as u32)) & 0xf000_0000u32) >> 28u32 == (w >> ((28 - 4 * k) as u32))
            & 0xfu32,
        k < 7 ==> (w << ((4 * k) as u32)) << 4u32 == w << ((4 * (k + 1)) as u32),
{
    assert(((w << ((4 * k) as u32)) & 0xf000_0000u32) >> 28u32 == (w >> ((28 - 4 * k) as u32))
        & 0xfu32) by (bit_vector)
        requires
            k < 8,
    ;
    assert(k < 7 ==> (w << ((4 * k) as u32)) << 4u32 == w << ((4 * (k + 1)) as u32))
        by (bit_vector)
        requires
            k < 8,
    ;
}

/// Streaming decoder for the nibble-packed RVL integer stream.
struct RvlDecoder<'a> {
    data: &'a [u8],
    offset: usize,
    word: u32,
    nibbles_left: u8,
}

impl<'a> RvlDecoder<'a> {
    /// The index of the next nibble to be read.
    spec fn pos(&self) -> int {
        2 * self.offset - self.nibbles_left
    }

    /// The decoder has read whole words up to `offset` and holds the rest of the
    /// last one, shifted so that its next nibble is on top.
    spec fn wf(&self) -> bool {
        &&& self.offset % 4 == 0
        &&& self.offset <= self.data@.len()
        &&& self.nibbles_left <= 8
        &&& self.nibbles_left > 0 ==> {
            &&& self.offset >= 4
            &&& self.word == le_word(self.data@, self.offset - 4) << (4 * (8
                - self.nibbles_left)) as u32
        }
    }

    fn new(data: &'a [u8]) -> (d: Self)
        ensures
            d.wf(),
            d.data@ == data@,
            d.pos() == 0,
    {
        RvlDecoder { data, offset: 0, word: 0, nibbles_left: 0 }
    }

    /// Returns the next 4-bit nibble from the current RVL stream.
    fn next_nibble(&mut self) -> (r: Result<u8, StageError>)
        requires
            old(self).wf(),
        ensures
            final(self).wf(),
            final(self).data@ == old(self).data@,
            nibble_available(old(self).data@, old(self).pos()) ==> r == Ok::<u8, StageError>(
                nibble_at(old(self).data@, old(self).pos()) as u8,
            ) && final(self).pos() == old(self).pos() + 1,
            !nibble_available(old(self).data@, old(self).pos()) ==> (r matches Err(e)
                && is_invalid_message(e, truncated_message())),
    {
        if self.nibbles_left == 0 {
            if self.data.len() - self.offset < 4 {
                return Err(StageError::invalid("compressedDepth RVL payload truncated"));
            }
            let i = self.offset;
            self.word = (self.data[i] as u32) | ((self.data[i + 1] as u32) << 8u32) | ((self.data[i
                + 2] as u32) << 16u32) | ((self.data[i + 3] as u32) << 24u32);
            self.offset = self.offset + 4;
            self.nibbles_left = 8;
            proof {
                let w = self.word;
                assert(w << 0u32 == w) by (bit_vector);
            }
        }
        let ghost k = (8 - self.nibbles_left) as u32;
        let ghost w0 = le_word(self.data@, self.offset - 4);
        proof {
            lemma_word_shift(w0, k);
            let n = self.pos();
            assert(n / 8 == (self.offset - 4) / 4);
            assert(n % 8 == k);
        }
        let nibble = ((self.word & 0xF000_0000u32) >> 28u32) as u8;
        self.word = self.word << 4u32;
        self.nibbles_left = self.nibbles_left - 1;
        Ok(nibble)
    }

    /// Decodes one RVL variable-length integer.
    fn decode_vle(&mut self) -> (r: Result<u32, StageError>)
        requires
            old(self).wf(),
        ensures
            final(self).wf(),
            final(self).data@ == old(self).data@,
            match vle(old(self).data@, old(self).pos()) {
                Ok((v, m)) => r == Ok::<u32, StageError>(v) && final(self).pos() == m,
                Err(msg) => r matches Err(e) && is_invalid_message(e, msg),
            },
    {
        let mut value: u32 = 0;
        let mut shift: u32 = 0;
        loop
            invariant
                self.wf(),
                self.data@ == old(self).data@,
                shift < 32,
                vle(old(self).data@, old(self).pos()) == vle_from(
                    self.data@,
                    self.pos(),
                    shift,
                    value,
                ),
            decreases 32 - shift,
        {
            let ghost n = self.pos();
            let nibble = self.next_nibble()?;
            let low = (nibble & 0x7u8) as u32;
            if shift >= 32 {
                return Err(StageError::invalid("compressedDepth RVL integer overflow"));
            }
            let bits = low << shift;
            proof {
                let nib = nibble_at(self.data@, n);
                let wd = le_word(self.data@, 4 * (n / 8));
                let sh = (28 - 4 * (n % 8)) as u32;
                assert(nib == (wd >> sh) & 0xfu32);
                assert((wd >> sh) & 0xfu32 < 16) by (bit_vector);
                let nb = nibble;
                assert(((nb & 0x7u8) as u32) == ((nb as u32) & 7u32)) by (bit_vector);
                assert((nb & 0x8u8 == 0) == ((nb as u32) & 8u32 == 0)) by (bit_vector);
                assert(low << shift == bits);
            }
            value = match value.checked_add(bits) {
                Some(v) => v,
                None => {
                    return Err(StageError::invalid("compressedDepth RVL integer overflow"));
                },
            };
            if nibble & 0x8u8 == 0 {
                return Ok(value);
            }
            shift += 3;
            if shift >= 32 {
                return Err(StageError::invalid("compressedDepth RVL integer overflow"));
            }
        }
    }
}

/// Reads a single run length from the RVL stream.
fn decode_run_length(decoder: &mut RvlDecoder<'_>) -> (r: Result<usize, StageError>)
    requires
        old(decoder).wf(),
    ensures
        final(decoder).wf(),
        final(decoder).data@ == old(decoder).data@,
        match vle(old(decoder).data@, old(decoder).pos()) {
            Ok((v, m)) => r == Ok::<usize, StageError>(v as usize) && final(decoder).pos() == m,
            Err(msg) => r matches Err(e) && is_invalid_message(e, msg),
        },
{
    let v = decoder.decode_vle()?;
    Ok(v as usize)
}

/// Checks that the next decoded run fits in the declared frame size.
fn ensure_run_fits(output_len: usize, run_length: usize, pixel_count: usize) -> (r: Result<
    (),
    StageError,
>)
    ensures
        output_len + run_length <= pixel_count ==> r is Ok,
        output_len + run_length > pixel_count ==> (r matches Err(e) && is_invalid_message(
            e,
            expands_message(),
        )),
{
    if output_len > pixel_count || run_length > pixel_count - output_len {
        return Err(StageError::invalid("compressedDepth RVL expands past the declared image size"));
    }
    Ok(())
}

/// Converts a zigzag-encoded unsigned integer back to a signed delta.
fn decode_zigzag_delta(encoded: u32) -> (d: i32)
    ensures
        d as int == zigzag(encoded),
{
    let half = (encoded >> 1u32) as i32;
    let sign = (encoded & 1u32) as i32;
    assert((encoded & 1u32) <= 1) by (bit_vector);
    let mask: i32 = 0i32 - sign;
    proof {
        assert(encoded >> 1u32 == encoded / 2) by (bit_vector);
        assert((encoded & 1u32) == encoded % 2) by (bit_vector);
        if sign == 0 {
            assert(half ^ mask == half) by (bit_vector)
                requires
                    mask == 0,
            ;
        } else {
            assert(half ^ mask == -half - 1) by (bit_vector)
                requires
                    mask == -1,
                    half >= 0,
            ;
        }
    }
    half ^ mask
}

/// Decodes one non-zero depth sample from the RVL stream.
fn decode_next_depth_value(decoder: &mut RvlDecoder<'_>, previous: &mut i32) -> (r: Result<
    u16,
    StageError,
>)
    requires
        old(decoder).wf(),
    ensures
        final(decoder).wf(),
        final(decoder).data@ == old(decoder).data@,
        match next_value(old(decoder).data@, old(decoder).pos(), *old(previous)) {
            Ok((d, m, p)) => r == Ok::<u16, StageError>(d) && final(decoder).pos() == m
                && *final(previous) == p,
            Err(msg) => r matches Err(e) && is_invalid_message(e, msg),
        },
{
    let encoded = decoder.decode_vle()?;
    let delta = decode_zigzag_delta(encoded);
    let current = match previous.checked_add(delta) {
        Some(c) => c,
        None => {
            return Err(StageError::invalid("compressedDepth RVL delta overflow"));
        },
    };
    if current < 0 || current > 65535 {
        return Err(
            StageError::invalid("compressedDepth RVL produced an out-of-range depth value"),
        );
    }
    *previous = current;
    Ok(current as u16)
}

/// Expands one run of zeros from the RVL stream into the output buffer.
fn extend_zero_run(decoder: &mut RvlDecoder<'_>, output: &mut Vec<u16>, pixel_count: usize) -> (r:
    Result<(), StageError>)
    requires
        old(decoder).wf(),
    ensures
        final(decoder).wf(),
        final(decoder).data@ == old(decoder).data@,
        match zero_run(old(decoder).data@, old(decoder).pos(), old(output)@, pixel_count as int) {
            Ok((out, m)) => r is Ok && final(output)@ == out && final(decoder).pos() == m,
            Err(msg) => r matches Err(e) && is_invalid_message(e, msg),
        },
{
    let zero_count = decode_run_length(decoder)?;
    ensure_run_fits(output.len(), zero_count, pixel_count)?;
    let ghost start = output@;
    let mut k: usize = 0;
    while k < zero_count
        invariant
            k <= zero_count,
            output@ == start + Seq::new(k as nat, |i: int| 0u16),
        decreases zero_count - k,
    {
        output.push(0u16);
        k += 1;
        assert(output@ =~= start + Seq::new(k as nat, |i: int| 0u16));
    }
    Ok(())
}

/// Expands one run of non-zero values from the RVL stream into the output buffer.
fn extend_nonzero_run(
    decoder: &mut RvlDecoder<'_>,
    output: &mut Vec<u16>,
    previous: &mut i32,
    pixel_count: usize,
) -> (r: Result<(), StageError>)
    requires
        old(decoder).wf(),
    ensures
        final(decoder).wf(),
        final(decoder).data@ == old(decoder).data@,
        match nonzero_run(
            old(decoder).data@,
            old(decoder).pos(),
            old(output)@,
            *old(previous),
            pixel_count as int,
        ) {
            Ok((out, m, p)) => r is Ok && final(output)@ == out && final(decoder).pos() == m
                && *final(previous) == p,
            Err(msg) => r matches Err(e) && is_invalid_message(e, msg),
        },
{
    let nonzero_count = decode_run_length(decoder)?;
    ensure_run_fits(output.len(), nonzero_count, pixel_count)?;
    let ghost start = output@;
    let ghost n0 = decoder.pos();
    let ghost p0 = *previous;
    let mut k: usize = 0;
    assert(output@.subrange(start.len() as int, output@.len() as int) =~= Seq::<u16>::empty());
    assert(output@.subrange(0, start.len() as int) =~= start);
    while k < nonzero_count
        invariant
            k <= nonzero_count,
            nonzero_count == vle(old(decoder).data@, old(decoder).pos())->Ok_0.0,
            vle(old(decoder).data@, old(decoder).pos()) is Ok,
            n0 == vle(old(decoder).data@, old(decoder).pos())->Ok_0.1,
            p0 == *old(previous),
            start == old(output)@,
            start.len() + nonzero_count <= pixel_count,
            decoder.wf(),
            decoder.data@ == old(decoder).data@,
            next_values(decoder.data@, n0, p0, k as nat) == Ok::<(Seq<u16>, int, i32), Seq<char>>(
                (output@.subrange(start.len() as int, output@.len() as int), decoder.pos(), *previous),
            ),
            output@.len() >= start.len(),
            output@.subrange(0, start.len() as int) == start,
        decreases nonzero_count - k,
    {
        let ghost before = output@;
        let ghost nk = decoder.pos();
        let ghost pk = *previous;
        let r = decode_next_depth_value(decoder, previous);
        let d = match r {
            Ok(d) => d,
            Err(e) => {
                proof {
                    let msg = next_value(decoder.data@, nk, pk)->Err_0;
                    assert(next_value(decoder.data@, nk, pk) is Err);
                    assert(next_values(decoder.data@, n0, p0, (k + 1) as nat) == Err::<(Seq<u16>, int, i32), Seq<char>>(msg));
                    lemma_next_values_error(decoder.data@, n0, p0, (k + 1) as nat, nonzero_count as nat);
                    assert(next_values(decoder.data@, n0, p0, nonzero_count as nat) == Err::<(Seq<u16>, int, i32), Seq<char>>(msg));
                    assert(is_invalid_message(e, msg));
                }
                return Err(e);
            },
        };
        output.push(d);
        k += 1;
        assert(output@.subrange(start.len() as int, output@.len() as int) =~= before.subrange(
            start.len() as int,
            before.len() as int,
        ).push(d));
        assert(output@.subrange(0, start.len() as int) =~= before.subrange(0, start.len() as int));
    }
    assert(output@ =~= start + output@.subrange(start.len() as int, output@.len() as int));
    Ok(())
}

/// A failure among the first `k1` depths is the failure of the first `k2 >= k1`.
pub proof fn lemma_next_values_error(data: Seq<u8>, n: int, prev: i32, k1: nat, k2: nat)
    requires
        k1 <= k2,
        next_values(data, n, prev, k1) is Err,
    ensures
        next_values(data, n, prev, k2) == next_values(data, n, prev, k1),
    decreases k2,
{
    if k2 > k1 {
        lemma_next_values_error(data, n, prev, k1, (k2 - 1) as nat);
    }
}

/// Expands the RVL bitstream into a flat `u16` depth buffer.
fn decode_rvl_stream(data: &[u8], pixel_count: usize) -> (r: Result<Vec<u16>, StageError>)
    ensures
        match rvl_stream_decoding(data@, pixel_count as int) {
            Ok(values) => r matches Ok(v) && v@ == values,
            Err(msg) => r matches Err(e) && is_invalid_message(e, msg),
        },
{
    let mut decoder = RvlDecoder::new(data);
    let mut output: Vec<u16> = Vec::new();
    let mut previous: i32 = 0;
    while output.len() < pixel_count
        invariant
            decoder.wf(),
            decoder.data@ == data@,
            0 <= decoder.pos() <= 2 * data@.len(),
            rvl_stream_decoding(data@, pixel_count as int) == expand(
                data@,
                decoder.pos(),
                output@,
                previous,
                pixel_count as int,
            ),
        decreases 2 * data@.len() - decoder.pos(),
    {
        let ghost n = decoder.pos();
        let ghost prev0 = previous;
        extend_zero_run(&mut decoder, &mut output, pixel_count)?;
        let ghost n1 = decoder.pos();
        extend_nonzero_run(&mut decoder, &mut output, &mut previous, pixel_count)?;
        proof {
            lemma_vle_advances(data@, n);
            lemma_vle_advances(data@, n1);
            if let Ok((k, n3)) = vle(data@, n1) {
                lemma_next_values_advance(data@, n3, prev0, k as nat);
            }
        }
    }
    Ok(output)
}

/// Parsed view of a ROS `compressedDepth rvl` payload.
struct RvlPayload<'a> {
    width: u32,
    height: u32,
    stream: &'a [u8],
}

impl RvlPayload<'_> {
    /// Returns the number of pixels described by the payload dimensions.
    fn pixel_count(&self) -> (r: Result<usize, StageError>)
        ensures
            self.width as int * self.height as int <= usize::MAX ==> r == Ok::<usize, StageError>(
                (self.width as int * self.height as int) as usize,
            ),
            self.width as int * self.height as int > usize::MAX ==> (r matches Err(e)
                && is_invalid_message(e, rvl_dimensions_overflow_message())),
    {
        match (self.width as usize).checked_mul(self.height as usize) {
            Some(n) => Ok(n),
            None => Err(StageError::invalid("compressedDepth RVL dimensions overflow")),
        }
    }
}

/// Reads the little-endian 32-bit word at byte offset `i`.
fn read_le_word(data: &[u8], i: usize) -> (w: u32)
    requires
        i + 4 <= data@.len(),
    ensures
        w == le_word(data@, i as int),
{
    (data[i] as u32) | ((data[i + 1] as u32) << 8u32) | ((data[i + 2] as u32) << 16u32) | ((data[i
        + 3] as u32) << 24u32)
}

/// Parses the fixed-size header fields of an RVL payload.
fn parse_rvl_payload(data: &[u8]) -> (r: Result<RvlPayload<'_>, StageError>)
    ensures
        data@.len() < 20 ==> (r matches Err(e) && is_invalid_message(
            e,
            too_short_message(data@.len()),
        )),
        data@.len() >= 20 && (le_word(data@, 12) == 0 || le_word(data@, 16) == 0) ==> (r matches Err(
            e,
        ) && is_invalid_message(e, non_positive_message(le_word(data@, 12), le_word(data@, 16)))),
        data@.len() >= 20 && le_word(data@, 12) != 0 && le_word(data@, 16) != 0 ==> (r matches Ok(
            p,
        ) && p.width == le_word(data@, 12) && p.height == le_word(data@, 16) && p.stream@
            == data@.subrange(20, data@.len() as int)),
{
    if data.len() < 20 {
        let mut m = "compressedDepth RVL payload too short: ".to_string();
        push_str(&mut m, decimal_string(data.len() as u64).as_str());
        push_str(&mut m, " bytes (minimum 20)");
        return Err(StageError::invalid_owned(m));
    }
    let width = read_le_word(data, 12);
    let height = read_le_word(data, 16);
    if width == 0 || height == 0 {
        let mut m = "compressedDepth RVL has non-positive dimensions: ".to_string();
        push_str(&mut m, decimal_string(width as u64).as_str());
        push_str(&mut m, "x");
        push_str(&mut m, decimal_string(height as u64).as_str());
        return Err(StageError::invalid_owned(m));
    }
    Ok(RvlPayload { width, height, stream: &data[20..data.len()] })
}

/// Decodes a `16UC1; compressedDepth rvl` payload into millimeter depth values.
pub fn decode_rvl_depth(data: &[u8]) -> (r: Result<DecodedDepthFrame, StageError>)
    ensures
        match rvl_payload_decoding(data@) {
            Ok((w, h, values)) => r matches Ok(f) && f.width == w && f.height == h && f.values_mm@
                == values,
            Err(msg) => r matches Err(e) && is_invalid_message(e, msg),
        },
{
    let payload = parse_rvl_payload(data)?;
    let count = payload.pixel_count()?;
    let values_mm = decode_rvl_stream(payload.stream, count)?;
    proof {
        lemma_expand_length(payload.stream@, 0, Seq::empty(), 0, count as int);
    }
    DecodedDepthFrame::new(payload.width, payload.height, values_mm)
}

} // verus!
