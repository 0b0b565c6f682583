//! Q10Clip4 depth quantization and P010LE frame packing.
//!
//! `[1, depth_max_mm]` is mapped uniformly onto `[1, 1023]`; a zero depth
//! (invalid pixel) and any depth beyond `depth_max_mm` map to 0. P010LE stores
//! the 10-bit value in the upper bits of a little-endian 16-bit Y sample and
//! neutral chroma (`0x8000`) in the 4:2:0 interleaved UV plane.

use vstd::prelude::*;
use vstd::arithmetic::div_mod::lemma_fundamental_div_mod;
use crate::compressed_depth::gray16le;

verus! {

/// Parameters for Q10Clip4 quantization.
#[derive(Clone, Debug)]
pub struct Q10ClipParams {
    /// Maximum depth in millimeters; deeper values are clipped to 0.
    pub depth_max_mm: u16,
}

/// The 10-bit code of a depth: 0 for an invalid or clipped depth, otherwise
/// `(depth * 1023 + depth_max / 2) / depth_max` held within `[1, 1023]`.
pub open spec fn q10(depth_max: u16, depth: u16) -> u16 {
    if depth == 0 || depth > depth_max {
        0
    } else {
        let q = (depth * 1023 + depth_max / 2) / (depth_max as int);
        if q < 1 {
            1
        } else if q > 1023 {
            1023
        } else {
            q as u16
        }
    }
}

/// The depth a 10-bit code stands for: 0 for code 0, otherwise
/// `(code * depth_max + 511) / 1023` (as `u16`).
pub open spec fn dequantized(depth_max: u16, code: u16) -> u16 {
    if code == 0 {
        0
    } else {
        ((code * depth_max + 511) / 1023) as u16
    }
}

/// The largest distance between a depth and its restored value:
/// `ceil(depth_max / 1023)`.
pub open spec fn quantization_step(depth_max: u16) -> int {
    (depth_max + 1022) / 1023
}

impl Q10ClipParams {
    /// Creates new quantization parameters; `depth_max_mm` must not be 0.
    pub fn new(depth_max_mm: u16) -> (p: Self)
        requires
            depth_max_mm > 0,
        ensures
            p.depth_max_mm == depth_max_mm,
    {
        Q10ClipParams { depth_max_mm }
    }

    /// Quantizes a single 16-bit depth value to 10 bits.
    pub fn quantize(&self, depth_mm: u16) -> (q: u16)
        requires
            self.depth_max_mm > 0,
        ensures
            q == q10(self.depth_max_mm, depth_mm),
            1 <= depth_mm <= self.depth_max_mm ==> 1 <= q <= 1023,
            depth_mm == 0 || depth_mm > self.depth_max_mm ==> q == 0,
    {
        if depth_mm == 0 || depth_mm > self.depth_max_mm {
            return 0;
        }
        let numerator = depth_mm as u32 * 1023 + self.depth_max_mm as u32 / 2;
        let q = numerator / self.depth_max_mm as u32;
        if q < 1 {
            1
        } else if q > 1023 {
            1023
        } else {
            q as u16
        }
    }

    /// Dequantizes a 10-bit value back to millimeters.
    pub fn dequantize(&self, q10: u16) -> (d: u16)
        ensures
            d == dequantized(self.depth_max_mm, q10),
    {
        if q10 == 0 {
            return 0;
        }
        assert(q10 as int * self.depth_max_mm as int <= 65535 * 65535) by (nonlinear_arith)
            requires
                q10 <= 65535,
                self.depth_max_mm <= 65535,
        ;
        let numerator = q10 as u32 * self.depth_max_mm as u32 + 511;
        (numerator / 1023) as u16
    }
}

/// A depth within range is restored to within one quantization step.
pub proof fn lemma_roundtrip_error(depth_max: u16, depth: u16)
    requires
        1 <= depth <= depth_max,
    ensures
        ({
            let restored = dequantized(depth_max, q10(depth_max, depth));
            &&& depth - restored <= quantization_step(depth_max)
            &&& restored - depth <= quantization_step(depth_max)
            &&& restored <= depth_max
        }),
{
    let m = depth_max as int;
    let d = depth as int;
    let h = m / 2;
    let a = 1023 * d + h;
    let q0 = a / m;
    lemma_fundamental_div_mod(a, m);
    assert(0 <= a % m < m);
    let s = quantization_step(depth_max);
    lemma_fundamental_div_mod(m + 1022, 1023);
    assert(s * 1023 >= m);
    assert(q0 <= 1023) by (nonlinear_arith)
        requires
            a == m * q0 + a % m,
            0 <= a % m,
            d <= m,
            a == 1023 * d + h,
            h <= m / 2,
            m > 0,
    ;
    assert(q0 >= 0) by (nonlinear_arith)
        requires
            a == m * q0 + a % m,
            a % m < m,
            a >= 0,
            m > 0,
    ;
    let q = if q0 < 1 {
        1
    } else {
        q0
    };
    assert(q10(depth_max, depth) == q);
    let b = q * m + 511;
    let r = b / 1023;
    lemma_fundamental_div_mod(b, 1023);
    assert(r <= m) by (nonlinear_arith)
        requires
            b == 1023 * r + b % 1023,
            0 <= b % 1023,
            b == q * m + 511,
            q <= 1023,
            m >= 1,
    ;
    assert(r >= 0) by (nonlinear_arith)
        requires
            b == 1023 * r + b % 1023,
            b % 1023 < 1023,
            b >= 0,
    ;
    assert(q * m <= 65535 * 65535) by (nonlinear_arith)
        requires
            0 <= q <= 1023,
            0 <= m <= 65535,
    ;
    assert(dequantized(depth_max, q10(depth_max, depth)) == r);
    let x = m * q0;
    let y = 1023 * r;
    assert(a - m < x <= a);
    assert(y <= b < y + 1023);
    assert(h <= m / 2);
    if q0 >= 1 {
        assert(q * m == m * q0) by (nonlinear_arith)
            requires
                q == q0,
        ;
        assert(b == x + 511);
        assert(r - d <= s);
        assert(d - r <= s);
    } else {
        assert(q * m == m) by (nonlinear_arith)
            requires
                q == 1,
        ;
        assert(b == m + 511);
        assert(x == 0) by (nonlinear_arith)
            requires
                x == m * q0,
                q0 == 0,
        ;
        assert(r - d <= s);
        assert(d - r <= s);
    }
}

/// The number of depths that were clipped: non-zero and beyond `depth_max`.
pub open spec fn clipped_count(raw: Seq<u16>, depth_max: u16) -> nat
    decreases raw.len(),
{
    if raw.len() == 0 {
        0
    } else {
        clipped_count(raw.drop_last(), depth_max) + if raw.last() > depth_max && raw.last() != 0 {
            1nat
        } else {
            0nat
        }
    }
}

/// Quantizes a whole frame into `out`, returning how many pixels were clipped.
pub fn quantize_frame(raw: &[u16], params: &Q10ClipParams, out: &mut [u16]) -> (clipped: usize)
    requires
        raw@.len() == old(out)@.len(),
        params.depth_max_mm > 0,
    ensures
        final(out)@.len() == raw@.len(),
        forall|i: int|
            0 <= i < raw@.len() ==> final(out)@[i] == q10(params.depth_max_mm, #[trigger] raw@[i]),
        clipped == clipped_count(raw@, params.depth_max_mm),
{
    let mut clipped: usize = 0;
    let mut i: usize = 0;
    while i < raw.len()
        invariant
            i <= raw@.len() == out@.len(),
            params.depth_max_mm > 0,
            forall|k: int| 0 <= k < i ==> out@[k] == q10(params.depth_max_mm, #[trigger] raw@[k]),
            clipped == clipped_count(raw@.take(i as int), params.depth_max_mm),
            clipped <= i,
        decreases raw.len() - i,
    {
        let src = raw[i];
        if src > params.depth_max_mm && src != 0 {
            clipped += 1;
        }
        out[i] = params.quantize(src);
        i += 1;
        assert(raw@.take(i as int).drop_last() =~= raw@.take(i - 1));
    }
    assert(raw@.take(raw@.len() as int) =~= raw@);
    clipped
}

/// The Y sample of a 10-bit code: the code shifted into the upper bits of 16.
pub open spec fn y_sample(code: u16) -> u16 {
    code << 6u16
}

/// `n` neutral chroma pairs (`0x8000` for Cb and Cr), little-endian.
pub open spec fn neutral_chroma(n: nat) -> Seq<u8>
    decreases n,
{
    if n == 0 {
        Seq::empty()
    } else {
        neutral_chroma((n - 1) as nat) + seq![0x00u8, 0x80u8, 0x00u8, 0x80u8]
    }
}

/// The P010LE frame of a `width x height` image of 10-bit codes.
pub open spec fn p010le(q10s: Seq<u16>, width: u32, height: u32) -> Seq<u8> {
    gray16le(q10s.map_values(|v: u16| y_sample(v))) + neutral_chroma(
        ((width / 2) * (height / 2)) as nat,
    )
}

/// Converts quantized 10-bit values to P010LE frame bytes.
pub fn q10_to_p010le(q10: &[u16], width: u32, height: u32) -> (buf: Vec<u8>)
    requires
        q10@.len() == width as int * height as int,
    ensures
        buf@ == p010le(q10@, width, height),
{
    let mut buf: Vec<u8> = Vec::new();
    let mut i: usize = 0;
    while i < q10.len()
        invariant
            i <= q10@.len(),
            buf@ == gray16le(q10@.take(i as int).map_values(|v: u16| y_sample(v))),
        decreases q10.len() - i,
    {
        let sample = q10[i] << 6u16;
        buf.push((sample % 256) as u8);
        buf.push((sample / 256) as u8);
        i += 1;
        assert(q10@.take(i as int).map_values(|v: u16| y_sample(v)).drop_last() =~= q10@.take(
            i - 1,
        ).map_values(|v: u16| y_sample(v)));
    }
    assert(q10@.take(q10@.len() as int) =~= q10@);
    let ghost y_plane = buf@;
    let w = width as usize;
    let h = height as usize;
    assert((w / 2) * (h / 2) <= w * h) by (nonlinear_arith);
    let chroma_samples = (w / 2) * (h / 2);
    let mut k: usize = 0;
    while k < chroma_samples
        invariant
            k <= chroma_samples,
            buf@ == y_plane + neutral_chroma(k as nat),
        decreases chroma_samples - k,
    {
        buf.push(0x00u8);
        buf.push(0x80u8);
        buf.push(0x00u8);
        buf.push(0x80u8);
        k += 1;
        assert(buf@ =~= y_plane + neutral_chroma(k as nat));
    }
    buf
}

/// A P010LE frame of an even-sized image is three bytes per pixel.
pub proof fn lemma_p010le_size(q10s: Seq<u16>, width: u32, height: u32)
    requires
        q10s.len() == width as int * height as int,
        width % 2 == 0,
        height % 2 == 0,
    ensures
        p010le(q10s, width, height).len() == 3 * width as int * height as int,
{
    let ys = q10s.map_values(|v: u16| y_sample(v));
    crate::compressed_depth::lemma_gray16le_bytes(ys);
    assert(ys.len() == q10s.len());
    let hw = (width / 2) as int;
    let hh = (height / 2) as int;
    assert(width as int == 2 * hw);
    assert(height as int == 2 * hh);
    lemma_neutral_chroma_len((hw * hh) as nat);
    assert(4 * (hw * hh) == (2 * hw) * (2 * hh)) by (nonlinear_arith);
    assert(((width / 2) * (height / 2)) as nat == (hw * hh) as nat);
    let wh = width as int * height as int;
    assert(4 * (hw * hh) == wh);
    assert(3 * width as int * height as int == 3 * wh) by (nonlinear_arith)
        requires
            wh == width as int * height as int,
    ;
    assert(p010le(q10s, width, height).len() == 2 * wh + 4 * (hw * hh));
}

/// Each neutral chroma pair is four bytes.
pub proof fn lemma_neutral_chroma_len(n: nat)
    ensures
        neutral_chroma(n).len() == 4 * n,
    decreases n,
{
    if n > 0 {
        lemma_neutral_chroma_len((n - 1) as nat);
    }
}

} // verus!
