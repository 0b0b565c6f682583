//! The RVL encoding of a depth image, and the proof that the RVL decoding
//! gives back the depths that it encodes.
//!
//! An encoder writes, for each stretch of the image, the length of a run of
//! zero depths, the length of the following run of non-zero depths, and the
//! zigzag code of each non-zero depth's difference from the previous non-zero
//! depth; every integer as three-bit groups, least significant first, in 4-bit
//! nibbles whose top bit says that another follows. Nibbles are packed eight
//! to a little-endian 32-bit word, most significant first, the last word
//! padded with zero nibbles.

use vstd::prelude::*;
use vstd::arithmetic::power2::{pow2, lemma_pow2_adds, lemma2_to64};
use vstd::bits::lemma_u32_shl_is_mul;
use super::rvl::{
    expand, le_word, next_values, nibble_at, nibble_available, nonzero_run, rvl_payload_decoding,
    rvl_stream_decoding, vle, vle_from,
    zero_run, zigzag,
};

verus! {

/// The nibbles that encode the integer `v`.
pub open spec fn vle_nibbles(v: nat) -> Seq<u32>
    decreases v,
{
    if v < 8 {
        seq![v as u32]
    } else {
        seq![(v % 8 + 8) as u32] + vle_nibbles(v / 8)
    }
}

/// Whether nibble `m` of `data` lies within it and is `v`.
pub open spec fn nibble_is(data: Seq<u8>, m: int, v: u32) -> bool {
    nibble_available(data, m) && nibble_at(data, m) == v
}

/// Whether the nibbles of `data` from nibble `n` on are `ns`.
pub open spec fn holds_nibbles(data: Seq<u8>, n: int, ns: Seq<u32>) -> bool {
    forall|i: int| 0 <= i < ns.len() ==> nibble_is(data, n + i, #[trigger] ns[i])
}

proof fn lemma_holds_split(data: Seq<u8>, n: int, a: Seq<u32>, b: Seq<u32>)
    requires
        holds_nibbles(data, n, a + b),
    ensures
        holds_nibbles(data, n, a),
        holds_nibbles(data, n + a.len(), b),
{
    let ab = a + b;
    assert forall|i: int| 0 <= i < a.len() implies nibble_is(data, n + i, #[trigger] a[i]) by {
        assert(nibble_is(data, n + i, ab[i]));
    }
    assert forall|i: int| 0 <= i < b.len() implies nibble_is(data, n + a.len() + i, #[trigger] b[i]) by {
        let j = a.len() + i;
        assert(nibble_is(data, n + j, ab[j]));
        assert(ab[j] == b[i]);
        assert(n + j == n + a.len() + i);
    }
}

proof fn lemma_small_nibble(nib: u32)
    requires
        nib < 8,
    ensures
        nib & 7u32 == nib,
        nib & 8u32 == 0,
{
    assert(nib & 7u32 == nib) by (bit_vector)
        requires
            nib < 8,
    ;
    assert(nib & 8u32 == 0) by (bit_vector)
        requires
            nib < 8,
    ;
}

proof fn lemma_continued_nibble(nib: u32)
    requires
        8 <= nib < 16,
    ensures
        nib & 7u32 == nib - 8,
        nib & 8u32 != 0,
{
    assert(nib & 7u32 == nib - 8) by (bit_vector)
        requires
            8 <= nib < 16,
    ;
    assert(nib & 8u32 != 0) by (bit_vector)
        requires
            8 <= nib < 16,
    ;
}

/// Decoding the nibbles of `v`, after `t` groups that gave `acc`, finishes the integer.
proof fn lemma_vle_from_nibbles(data: Seq<u8>, n: int, t: nat, acc: nat, v: nat)
    requires
        t <= 10,
        acc < pow2(3 * t),
        acc + v * pow2(3 * t) <= u32::MAX,
        holds_nibbles(data, n, vle_nibbles(v)),
    ensures
        vle_from(data, n, (3 * t) as u32, acc as u32) == Ok::<(u32, int), Seq<char>>(
            ((acc + v * pow2(3 * t)) as u32, n + vle_nibbles(v).len()),
        ),
    decreases v,
{
    let p = pow2(3 * t);
    let shift = (3 * t) as u32;
    assert(nibble_is(data, n + 0, vle_nibbles(v)[0]));
    let nib = nibble_at(data, n);
    lemma_pow2_adds(3 * t, 3);
    lemma2_to64();
    assert(p > 0) by {
        vstd::arithmetic::power2::lemma_pow2_pos(3 * t);
    }
    if v < 8 {
        lemma_small_nibble(nib);
        assert(nib == v);
        assert(v * p <= u32::MAX);
        lemma_u32_shl_is_mul(v as u32, shift);
        assert((nib & 7u32) << shift == v * p);
    } else {
        lemma_continued_nibble(nib);
        assert(nib & 7u32 == v % 8);
        assert((v % 8) * p <= v * p) by (nonlinear_arith)
            requires
                v % 8 <= v,
        ;
        lemma_u32_shl_is_mul((v % 8) as u32, shift);
        if t >= 10 {
            assert(t == 10);
            assert(p == pow2(30));
            assert(v * p >= 8 * p) by (nonlinear_arith)
                requires
                    v >= 8,
                    p >= 0,
            ;
            assert(false);
        }
        let acc2 = acc + (v % 8) * p;
        assert(acc2 < pow2(3 * (t + 1))) by {
            assert((v % 8) * p <= 7 * p) by (nonlinear_arith)
                requires
                    v % 8 <= 7,
                    p >= 0,
            ;
            assert(pow2(3 * (t + 1)) == pow2(3 * t + 3));
        }
        assert(acc2 + (v / 8) * pow2(3 * (t + 1)) == acc + v * p) by {
            assert(pow2(3 * (t + 1)) == p * 8) by {
                assert(3 * (t + 1) == 3 * t + 3);
            }
            assert((v / 8) * (p * 8) + (v % 8) * p == v * p) by (nonlinear_arith)
                requires
                    v == 8 * (v / 8) + v % 8,
            ;
        }
        lemma_holds_split(data, n, seq![(v % 8 + 8) as u32], vle_nibbles(v / 8));
        lemma_vle_from_nibbles(data, n + 1, t + 1, acc2, v / 8);
        assert((3 * (t + 1)) as u32 == (shift + 3) as u32);
    }
}

/// Decoding the nibbles of an integer gives back the integer.
pub proof fn lemma_vle_decodes(data: Seq<u8>, n: int, v: nat)
    requires
        v <= u32::MAX,
        holds_nibbles(data, n, vle_nibbles(v)),
    ensures
        vle(data, n) == Ok::<(u32, int), Seq<char>>((v as u32, n + vle_nibbles(v).len())),
{
    lemma2_to64();
    assert(pow2(3 * 0) == 1);
    lemma_vle_from_nibbles(data, n, 0, 0, v);
}

/// The zigzag code of a signed difference: `0, -1, 1, -2, 2, ...` become
/// `0, 1, 2, 3, 4, ...`.
pub open spec fn zigzag_code(d: int) -> nat {
    if d >= 0 {
        (2 * d) as nat
    } else {
        (-2 * d - 1) as nat
    }
}

proof fn lemma_zigzag_inverse(d: int)
    requires
        -65535 <= d <= 65535,
    ensures
        zigzag_code(d) <= u32::MAX,
        zigzag(zigzag_code(d) as u32) == d,
{
}

/// The depth a difference at offset `k` of the run starting at `j` is taken
/// from: the run's previous depth, or `prev` at the run's start.
pub open spec fn prior_depth(values: Seq<u16>, j: int, k: int, prev: int) -> int {
    if k == 0 {
        prev
    } else {
        values[j + k - 1] as int
    }
}

/// The nibbles of the zigzag-coded differences of `values[j..j + k]`, the
/// first taken from `prev`.
pub open spec fn delta_nibbles(values: Seq<u16>, j: int, k: nat, prev: int) -> Seq<u32>
    decreases k,
{
    if k == 0 {
        Seq::empty()
    } else {
        delta_nibbles(values, j, (k - 1) as nat, prev) + vle_nibbles(
            zigzag_code(values[j + k - 1] - prior_depth(values, j, k - 1, prev)),
        )
    }
}

/// Decoding the differences of a run of non-zero depths gives back the run.
proof fn lemma_deltas_decode(data: Seq<u8>, n: int, values: Seq<u16>, j: int, k: nat, prev: int)
    requires
        0 <= j,
        j + k <= values.len(),
        0 <= prev <= u16::MAX,
        holds_nibbles(data, n, delta_nibbles(values, j, k, prev)),
    ensures
        next_values(data, n, prev as i32, k) == Ok::<(Seq<u16>, int, i32), Seq<char>>(
            (
                values.subrange(j, j + k),
                n + delta_nibbles(values, j, k, prev).len(),
                prior_depth(values, j, k as int, prev) as i32,
            ),
        ),
    decreases k,
{
    if k == 0 {
        assert(values.subrange(j, j) =~= Seq::<u16>::empty());
    } else {
        let k1 = (k - 1) as nat;
        let p1 = prior_depth(values, j, k1 as int, prev);
        let d = values[j + k - 1] - p1;
        let head = delta_nibbles(values, j, k1, prev);
        lemma_holds_split(data, n, head, vle_nibbles(zigzag_code(d)));
        lemma_deltas_decode(data, n, values, j, k1, prev);
        lemma_zigzag_inverse(d);
        lemma_vle_decodes(data, n + head.len(), zigzag_code(d));
        assert(values.subrange(j, j + k1).push(values[j + k - 1]) =~= values.subrange(j, j + k));
    }
}

/// The length of the run of zero depths starting at `i`.
pub open spec fn zeros_from(values: Seq<u16>, i: int) -> nat
    decreases values.len() - i,
{
    if 0 <= i < values.len() && values[i] == 0 {
        1 + zeros_from(values, i + 1)
    } else {
        0
    }
}

/// The length of the run of non-zero depths starting at `i`.
pub open spec fn nonzeros_from(values: Seq<u16>, i: int) -> nat
    decreases values.len() - i,
{
    if 0 <= i < values.len() && values[i] != 0 {
        1 + nonzeros_from(values, i + 1)
    } else {
        0
    }
}

pub proof fn lemma_zeros_from(values: Seq<u16>, i: int)
    requires
        0 <= i <= values.len(),
    ensures
        i + zeros_from(values, i) <= values.len(),
        forall|m: int| i <= m < i + zeros_from(values, i) ==> values[m] == 0,
    decreases values.len() - i,
{
    if i < values.len() && values[i] == 0 {
        lemma_zeros_from(values, i + 1);
    }
}

pub proof fn lemma_nonzeros_from(values: Seq<u16>, i: int)
    requires
        0 <= i <= values.len(),
    ensures
        i + nonzeros_from(values, i) <= values.len(),
    decreases values.len() - i,
{
    if i < values.len() && values[i] != 0 {
        lemma_nonzeros_from(values, i + 1);
    }
}

/// The nibbles that encode `values[i..]`, the first non-zero depth taken
/// from `prev`: runs of zeros and non-zeros in turn.
pub open spec fn rvl_nibbles_from(values: Seq<u16>, i: int, prev: int) -> Seq<u32>
    decreases values.len() - i,
{
    if i < 0 || i >= values.len() {
        Seq::empty()
    } else {
        let z = zeros_from(values, i);
        let k = nonzeros_from(values, i + z);
        proof {
            lemma_zeros_from(values, i);
            lemma_nonzeros_from(values, i + z);
            if values[i] != 0 {
                assert(z == 0);
                assert(k >= 1);
            }
        }
        vle_nibbles(z) + vle_nibbles(k) + delta_nibbles(values, i + z, k, prev) + rvl_nibbles_from(
            values,
            i + z + k,
            prior_depth(values, i + z, k as int, prev),
        )
    }
}

proof fn lemma_holds_split4(data: Seq<u8>, n: int, a: Seq<u32>, b: Seq<u32>, c: Seq<u32>, d: Seq<u32>)
    requires
        holds_nibbles(data, n, a + b + c + d),
    ensures
        holds_nibbles(data, n, a),
        holds_nibbles(data, n + a.len(), b),
        holds_nibbles(data, n + a.len() + b.len(), c),
        holds_nibbles(data, n + a.len() + b.len() + c.len(), d),
{
    lemma_holds_split(data, n, a + b + c, d);
    lemma_holds_split(data, n, a + b, c);
    lemma_holds_split(data, n, a, b);
}

/// Expanding the encoding of `values[i..]` after `values[..i]` gives back `values`.
proof fn lemma_expand_encoding(data: Seq<u8>, n: int, values: Seq<u16>, i: int, prev: int)
    requires
        0 <= i <= values.len(),
        values.len() <= u32::MAX,
        0 <= prev <= u16::MAX,
        holds_nibbles(data, n, rvl_nibbles_from(values, i, prev)),
    ensures
        expand(data, n, values.subrange(0, i), prev as i32, values.len() as int) == Ok::<
            Seq<u16>,
            Seq<char>,
        >(values),
    decreases values.len() - i,
{
    let count = values.len() as int;
    let out = values.subrange(0, i);
    if i == values.len() {
        assert(out =~= values);
    } else {
        let z = zeros_from(values, i);
        let k = nonzeros_from(values, i + z);
        lemma_zeros_from(values, i);
        lemma_nonzeros_from(values, i + z);
        let zs = vle_nibbles(z);
        let ks = vle_nibbles(k);
        let ds = delta_nibbles(values, i + z, k, prev);
        let p2 = prior_depth(values, i + z, k as int, prev);
        let rest = rvl_nibbles_from(values, i + z + k, p2);
        lemma_holds_split4(data, n, zs, ks, ds, rest);
        lemma_vle_decodes(data, n, z);
        let n1 = n + zs.len();
        let out1 = out + Seq::new(z, |m: int| 0u16);
        assert(out1 =~= values.subrange(0, i + z));
        assert(zero_run(data, n, out, count) == Ok::<(Seq<u16>, int), Seq<char>>((out1, n1)));
        lemma_vle_decodes(data, n1, k);
        let n3 = n1 + ks.len();
        lemma_deltas_decode(data, n3, values, i + z, k, prev);
        let n2 = n3 + ds.len();
        let out2 = out1 + values.subrange(i + z, i + z + k);
        assert(out2 =~= values.subrange(0, i + z + k));
        assert(nonzero_run(data, n1, out1, prev as i32, count) == Ok::<
            (Seq<u16>, int, i32),
            Seq<char>,
        >((out2, n2, p2 as i32)));
        assert(0 <= p2 <= u16::MAX);
        lemma_expand_encoding(data, n2, values, i + z + k, p2);
    }
}

/// Whether every element of a sequence fits in a nibble.
pub open spec fn all_nibbles(ns: Seq<u32>) -> bool {
    forall|i: int| 0 <= i < ns.len() ==> #[trigger] ns[i] < 16
}

proof fn lemma_vle_nibbles_fit(v: nat)
    ensures
        all_nibbles(vle_nibbles(v)),
        vle_nibbles(v).len() >= 1,
    decreases v,
{
    if v >= 8 {
        lemma_vle_nibbles_fit(v / 8);
        let h = seq![(v % 8 + 8) as u32];
        let t = vle_nibbles(v / 8);
        assert forall|i: int| 0 <= i < (h + t).len() implies #[trigger] (h + t)[i] < 16 by {
            if i >= 1 {
                assert((h + t)[i] == t[i - 1]);
            }
        }
    }
}

proof fn lemma_concat_fit(a: Seq<u32>, b: Seq<u32>)
    requires
        all_nibbles(a),
        all_nibbles(b),
    ensures
        all_nibbles(a + b),
{
    assert forall|i: int| 0 <= i < (a + b).len() implies #[trigger] (a + b)[i] < 16 by {
        if i < a.len() {
            assert((a + b)[i] == a[i]);
        } else {
            assert((a + b)[i] == b[i - a.len()]);
        }
    }
}

proof fn lemma_delta_nibbles_fit(values: Seq<u16>, j: int, k: nat, prev: int)
    ensures
        all_nibbles(delta_nibbles(values, j, k, prev)),
    decreases k,
{
    if k > 0 {
        lemma_delta_nibbles_fit(values, j, (k - 1) as nat, prev);
        let d = values[j + k - 1] - prior_depth(values, j, k - 1, prev);
        lemma_vle_nibbles_fit(zigzag_code(d));
        lemma_concat_fit(delta_nibbles(values, j, (k - 1) as nat, prev), vle_nibbles(zigzag_code(d)));
    }
}

proof fn lemma_rvl_nibbles_fit(values: Seq<u16>, i: int, prev: int)
    ensures
        all_nibbles(rvl_nibbles_from(values, i, prev)),
    decreases values.len() - i,
{
    if 0 <= i < values.len() {
        let z = zeros_from(values, i);
        let k = nonzeros_from(values, i + z);
        lemma_zeros_from(values, i);
        lemma_nonzeros_from(values, i + z);
        let p2 = prior_depth(values, i + z, k as int, prev);
        lemma_vle_nibbles_fit(z);
        lemma_vle_nibbles_fit(k);
        lemma_delta_nibbles_fit(values, i + z, k, prev);
        lemma_rvl_nibbles_fit(values, i + z + k, p2);
        lemma_concat_fit(vle_nibbles(z), vle_nibbles(k));
        lemma_concat_fit(vle_nibbles(z) + vle_nibbles(k), delta_nibbles(values, i + z, k, prev));
        lemma_concat_fit(
            vle_nibbles(z) + vle_nibbles(k) + delta_nibbles(values, i + z, k, prev),
            rvl_nibbles_from(values, i + z + k, p2),
        );
    }
}

/// Nibble `m` of a sequence, zero past its end.
pub open spec fn nibble_or_zero(ns: Seq<u32>, m: int) -> u32 {
    if 0 <= m < ns.len() {
        ns[m]
    } else {
        0
    }
}

/// The 32-bit word built from eight nibbles, the first the most significant.
pub open spec fn word_of(a0: u32, a1: u32, a2: u32, a3: u32, a4: u32, a5: u32, a6: u32, a7: u32) -> u32 {
    (a0 << 28u32) | (a1 << 24u32) | (a2 << 20u32) | (a3 << 16u32) | (a4 << 12u32) | (a5 << 8u32) | (
    a6 << 4u32) | a7
}

/// Word `w` of a packed stream: nibbles `8w` to `8w + 7`, zero past the end.
pub open spec fn packed_word(ns: Seq<u32>, w: int) -> u32 {
    word_of(
        nibble_or_zero(ns, 8 * w),
        nibble_or_zero(ns, 8 * w + 1),
        nibble_or_zero(ns, 8 * w + 2),
        nibble_or_zero(ns, 8 * w + 3),
        nibble_or_zero(ns, 8 * w + 4),
        nibble_or_zero(ns, 8 * w + 5),
        nibble_or_zero(ns, 8 * w + 6),
        nibble_or_zero(ns, 8 * w + 7),
    )
}

/// Byte `j` (least significant first) of a word.
pub open spec fn word_byte(w: u32, j: int) -> u8 {
    ((w >> ((8 * j) as u32)) & 0xffu32) as u8
}

/// The bytes of a nibble sequence packed eight nibbles to a little-endian word.
pub open spec fn pack_nibbles(ns: Seq<u32>) -> Seq<u8> {
    Seq::new(4 * ((ns.len() + 7) / 8), |b: int| word_byte(packed_word(ns, b / 4), b % 4))
}

proof fn lemma_word_bytes(w: u32)
    ensures
        (word_byte(w, 0) as u32) | ((word_byte(w, 1) as u32) << 8u32) | ((word_byte(w, 2) as u32)
            << 16u32) | ((word_byte(w, 3) as u32) << 24u32) == w,
{
    assert(((((w >> 0u32) & 0xffu32) as u8) as u32) | (((((w >> 8u32) & 0xffu32) as u8) as u32)
        << 8u32) | (((((w >> 16u32) & 0xffu32) as u8) as u32) << 16u32) | (((((w >> 24u32)
        & 0xffu32) as u8) as u32) << 24u32) == w) by (bit_vector);
}

proof fn lemma_word_nibble(a0: u32, a1: u32, a2: u32, a3: u32, a4: u32, a5: u32, a6: u32, a7: u32, k: u32)
    requires
        a0 < 16 && a1 < 16 && a2 < 16 && a3 < 16 && a4 < 16 && a5 < 16 && a6 < 16 && a7 < 16,
        k < 8,
    ensures
        (word_of(a0, a1, a2, a3, a4, a5, a6, a7) >> ((28 - 4 * k) as u32)) & 0xfu32 == if k == 0 {
            a0
        } else if k == 1 {
            a1
        } else if k == 2 {
            a2
        } else if k == 3 {
            a3
        } else if k == 4 {
            a4
        } else if k == 5 {
            a5
        } else if k == 6 {
            a6
        } else {
            a7
        },
{
    assert((((a0 << 28u32) | (a1 << 24u32) | (a2 << 20u32) | (a3 << 16u32) | (a4 << 12u32) | (a5
        << 8u32) | (a6 << 4u32) | a7) >> ((28 - 4 * k) as u32)) & 0xfu32 == if k == 0 {
        a0
    } else if k == 1 {
        a1
    } else if k == 2 {
        a2
    } else if k == 3 {
        a3
    } else if k == 4 {
        a4
    } else if k == 5 {
        a5
    } else if k == 6 {
        a6
    } else {
        a7
    }) by (bit_vector)
        requires
            a0 < 16 && a1 < 16 && a2 < 16 && a3 < 16 && a4 < 16 && a5 < 16 && a6 < 16 && a7 < 16,
            k < 8,
    ;
}

proof fn lemma_or_zero_fits(ns: Seq<u32>, m: int)
    requires
        all_nibbles(ns),
    ensures
        nibble_or_zero(ns, m) < 16,
{
    if 0 <= m < ns.len() {
        assert(ns[m] < 16);
    }
}

/// The packed bytes hold the nibbles they were packed from.
proof fn lemma_pack_holds(ns: Seq<u32>)
    requires
        all_nibbles(ns),
    ensures
        holds_nibbles(pack_nibbles(ns), 0, ns),
{
    let data = pack_nibbles(ns);
    assert forall|i: int| 0 <= i < ns.len() implies nibble_is(data, 0 + i, #[trigger] ns[i]) by {
        let w = i / 8;
        let k = i % 8;
        assert(4 * w + 4 <= data.len());
        let word = packed_word(ns, w);
        assert(data[4 * w] == word_byte(word, 0));
        assert(data[4 * w + 1] == word_byte(word, 1));
        assert(data[4 * w + 2] == word_byte(word, 2));
        assert(data[4 * w + 3] == word_byte(word, 3));
        lemma_word_bytes(word);
        assert(le_word(data, 4 * w) == word);
        lemma_or_zero_fits(ns, 8 * w);
        lemma_or_zero_fits(ns, 8 * w + 1);
        lemma_or_zero_fits(ns, 8 * w + 2);
        lemma_or_zero_fits(ns, 8 * w + 3);
        lemma_or_zero_fits(ns, 8 * w + 4);
        lemma_or_zero_fits(ns, 8 * w + 5);
        lemma_or_zero_fits(ns, 8 * w + 6);
        lemma_or_zero_fits(ns, 8 * w + 7);
        lemma_word_nibble(
            nibble_or_zero(ns, 8 * w),
            nibble_or_zero(ns, 8 * w + 1),
            nibble_or_zero(ns, 8 * w + 2),
            nibble_or_zero(ns, 8 * w + 3),
            nibble_or_zero(ns, 8 * w + 4),
            nibble_or_zero(ns, 8 * w + 5),
            nibble_or_zero(ns, 8 * w + 6),
            nibble_or_zero(ns, 8 * w + 7),
            k as u32,
        );
        assert(8 * w + k == i);
    }
}

/// The RVL stream of a depth image.
pub open spec fn rvl_stream_encoding(values: Seq<u16>) -> Seq<u8> {
    pack_nibbles(rvl_nibbles_from(values, 0, 0))
}

/// The four little-endian bytes of a word.
pub open spec fn le_bytes(w: u32) -> Seq<u8> {
    seq![word_byte(w, 0), word_byte(w, 1), word_byte(w, 2), word_byte(w, 3)]
}

/// A `compressedDepth rvl` payload: the 12-byte config header, the width
/// and height, then the RVL stream of the depths.
pub open spec fn rvl_payload_encoding(header: Seq<u8>, width: u32, height: u32, values: Seq<u16>) -> Seq<u8> {
    header + le_bytes(width) + le_bytes(height) + rvl_stream_encoding(values)
}

/// Decoding the RVL stream of a depth image gives back the image (for an
/// image whose pixel count fits the format's 32-bit run lengths).
pub proof fn lemma_rvl_stream_roundtrip(values: Seq<u16>)
    requires
        values.len() <= u32::MAX,
    ensures
        rvl_stream_decoding(rvl_stream_encoding(values), values.len() as int) == Ok::<
            Seq<u16>,
            Seq<char>,
        >(values),
{
    let ns = rvl_nibbles_from(values, 0, 0);
    lemma_rvl_nibbles_fit(values, 0, 0);
    lemma_pack_holds(ns);
    assert(values.subrange(0, 0) =~= Seq::<u16>::empty());
    lemma_expand_encoding(pack_nibbles(ns), 0, values, 0, 0);
}

/// Decoding a `compressedDepth rvl` payload gives back the width, the height
/// and the depths it was made of, whatever its config header holds.
pub proof fn lemma_rvl_payload_roundtrip(header: Seq<u8>, width: u32, height: u32, values: Seq<u16>)
    requires
        header.len() == 12,
        width > 0,
        height > 0,
        values.len() == width * height,
        values.len() <= u32::MAX,
    ensures
        rvl_payload_decoding(rvl_payload_encoding(header, width, height, values)) == Ok::<
            (u32, u32, Seq<u16>),
            Seq<char>,
        >((width, height, values)),
{
    let data = rvl_payload_encoding(header, width, height, values);
    let stream = rvl_stream_encoding(values);
    assert(data.len() == 20 + stream.len());
    lemma_word_bytes(width);
    lemma_word_bytes(height);
    assert(data[12] == word_byte(width, 0) && data[13] == word_byte(width, 1) && data[14]
        == word_byte(width, 2) && data[15] == word_byte(width, 3));
    assert(data[16] == word_byte(height, 0) && data[17] == word_byte(height, 1) && data[18]
        == word_byte(height, 2) && data[19] == word_byte(height, 3));
    assert(le_word(data, 12) == width);
    assert(le_word(data, 16) == height);
    assert(data.subrange(20, data.len() as int) =~= stream);
    lemma_rvl_stream_roundtrip(values);
}

/// A payload made by the RVL encoder and declared with the format string ROS
/// writes for it, `16UC1; compressedDepth rvl`, decodes to the width, height
/// and depths it was made of.
pub proof fn lemma_rvl_declared_roundtrip(header: Seq<u8>, width: u32, height: u32, values: Seq<u16>)
    requires
        header.len() == 12,
        width > 0,
        height > 0,
        values.len() == width * height,
        values.len() <= u32::MAX,
    ensures
        super::compressed_depth_decoding(
            rvl_payload_encoding(header, width, height, values),
            Some("16UC1; compressedDepth rvl"@),
        ) == Ok::<(u32, u32, Seq<u16>), Seq<char>>((width, height, values)),
{
    super::format::lemma_rvl_format_string();
    lemma_rvl_payload_roundtrip(header, width, height, values);
}

} // verus!
