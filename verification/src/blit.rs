//! Pixel blending and the split of a blit into a scalar prefix, a vector
//! bulk and a scalar tail whose vector reads stay inside their backings.
use vstd::prelude::*;

verus! {

/// A 16-bit word with its two bytes exchanged.
pub open spec fn swap16(x: u16) -> u16 {
    ((x % 256) * 256 + x / 256) as u16
}

/// The red, green and blue fields of an RGB565 word.
pub open spec fn red5(x: u16) -> int {
    (x / 2048) as int
}

pub open spec fn green6(x: u16) -> int {
    ((x / 32) % 64) as int
}

pub open spec fn blue5(x: u16) -> int {
    (x % 32) as int
}

/// The RGB565 word with the given fields.
pub open spec fn pack565(r: int, g: int, b: int) -> int {
    r * 2048 + g * 32 + b
}

/// Blend weight of an 8-bit alpha: 0 maps to 0 and 255 to 256.
pub open spec fn alpha_weight(alpha: u8) -> int {
    alpha + alpha / 128
}

/// One channel moved from `d` towards `s` by `weight / 256`, rounded down.
pub open spec fn blend_channel(d: int, s: int, weight: int) -> int {
    d + ((s - d) * weight) / 256
}

/// `src` drawn over `dst` with coverage `alpha`, per RGB565 channel.
pub open spec fn alpha_pixel_spec(dst: u16, src: u16, alpha: u8) -> u16 {
    let w = alpha_weight(alpha);
    pack565(
        blend_channel(red5(dst), red5(src), w),
        blend_channel(green6(dst), green6(src), w),
        blend_channel(blue5(dst), blue5(src), w),
    ) as u16
}

proof fn lemma_blend_between(d: int, s: int, w: int)
    requires
        0 <= w <= 256,
    ensures
        d <= s ==> d <= blend_channel(d, s, w) <= s,
        s <= d ==> s <= blend_channel(d, s, w) <= d,
        w == 0 ==> blend_channel(d, s, w) == d,
        w == 256 ==> blend_channel(d, s, w) == s,
{
    let v = (s - d) * w;
    if d <= s {
        assert(0 <= v <= (s - d) * 256) by (nonlinear_arith)
            requires d <= s, 0 <= w <= 256, v == (s - d) * w;
    } else {
        assert((s - d) * 256 <= v <= 0) by (nonlinear_arith)
            requires s < d, 0 <= w <= 256, v == (s - d) * w;
    }
    assert(w == 0 ==> v == 0) by (nonlinear_arith)
        requires v == (s - d) * w;
    assert(w == 256 ==> v == (s - d) * 256) by (nonlinear_arith)
        requires v == (s - d) * w;
}

/// One blended channel, computed without relying on the sign of a shift.
fn blend_channel_exec(d: u16, s: u16, weight: u16, max: u16) -> (r: u16)
    requires
        d <= max,
        s <= max,
        max <= 63,
        weight <= 256,
    ensures
        r == blend_channel(d as int, s as int, weight as int),
        r <= max,
{
    proof {
        lemma_blend_between(d as int, s as int, weight as int);
    }
    if s >= d {
        let diff: u32 = (s - d) as u32;
        let w: u32 = weight as u32;
        assert(diff * w <= 63 * 256) by (nonlinear_arith)
            requires diff <= 63, w <= 256;
        let v: u32 = diff * w;
        assert(v == (s - d) * weight);
        (d as u32 + v / 256) as u16
    } else {
        let diff: u32 = (d - s) as u32;
        let w: u32 = weight as u32;
        assert(diff * w <= 63 * 256) by (nonlinear_arith)
            requires diff <= 63, w <= 256;
        let v: u32 = diff * w;
        assert(v == (d - s) * weight);
        let down: u32 = (v + 255) / 256;
        assert(((s as int - d as int) * weight as int) / 256 == -(down as int)) by {
            assert((s as int - d as int) * weight as int == -(v as int)) by (nonlinear_arith)
                requires v == (d - s) * weight, d > s;
        }
        (d as u32 - down) as u16
    }
}

/// Blends `src` over `dst` with coverage `alpha`, per RGB565 channel.
pub fn alpha_pixel(dst: u16, src: u16, alpha: u8) -> (result: u16)
    ensures
        result == alpha_pixel_spec(dst, src, alpha),
        alpha == 0 ==> result == dst,
        alpha == 255 ==> result == src,
{
    let weight: u16 = alpha as u16 + (alpha / 128) as u16;
    let r = blend_channel_exec(dst / 2048, src / 2048, weight, 31);
    let g = blend_channel_exec((dst / 32) % 64, (src / 32) % 64, weight, 63);
    let b = blend_channel_exec(dst % 32, src % 32, weight, 31);
    proof {
        lemma_blend_between(red5(dst), red5(src), weight as int);
        lemma_blend_between(green6(dst), green6(src), weight as int);
        lemma_blend_between(blue5(dst), blue5(src), weight as int);
        if alpha == 0 || alpha == 255 {
            assert(dst == pack565(red5(dst), green6(dst), blue5(dst)));
            assert(src == pack565(red5(src), green6(src), blue5(src)));
        }
    }
    r * 2048 + g * 32 + b
}

/// `u16::to_be`, which swaps the bytes on a little-endian host and is the
/// identity on a big-endian one.
#[verifier::external_body]
fn u16_to_be(x: u16) -> (r: u16)
    ensures
        r == x || r == swap16(x),
{
    x.to_be()
}

/// The pixel that `alpha_scalar` leaves in place of `d`, where `swap` says
/// whether stored words hold their bytes in the opposite order.
pub open spec fn alpha_scalar_pixel(d: u16, s: u16, a: u8, swap: bool) -> u16 {
    if a == 0 {
        d
    } else {
        let color = if a == 255 {
            s
        } else {
            alpha_pixel_spec(if swap { swap16(d) } else { d }, s, a)
        };
        if swap { swap16(color) } else { color }
    }
}

/// The destination after a scalar alpha blit: the common prefix of the
/// three slices is blended, the rest of `dst` is kept.
pub open spec fn alpha_scalar_spec(dst: Seq<u16>, src: Seq<u16>, alpha: Seq<u8>, swap: bool) -> Seq<u16> {
    Seq::new(dst.len(), |i: int|
        if i < src.len() && i < alpha.len() {
            alpha_scalar_pixel(dst[i], src[i], alpha[i], swap)
        } else {
            dst[i]
        })
}

pub(crate) fn swap16_exec(x: u16) -> (r: u16)
    ensures
        r == swap16(x),
{
    (x % 256) * 256 + x / 256
}

/// Blends `src` over `dst` as `alpha_scalar` does, with the byte order of
/// the stored words given: `swap` when they hold their bytes in the
/// opposite order to the host's.
pub fn alpha_scalar_ordered(dst: &mut [u16], src: &[u16], alpha: &[u8], swap: bool)
    ensures
        final(dst)@ == alpha_scalar_spec(old(dst)@, src@, alpha@, swap),
{
    let n = if dst.len() < src.len() { dst.len() } else { src.len() };
    let n = if n < alpha.len() { n } else { alpha.len() };
    let ghost original = dst@;
    let mut i: usize = 0;
    while i < n
        invariant
            n <= dst@.len(),
            n <= src@.len(),
            n <= alpha@.len(),
            n == dst@.len() || n == src@.len() || n == alpha@.len(),
            i <= n,
            dst@.len() == original.len(),
            forall|k: int| 0 <= k < i ==> dst@[k] == alpha_scalar_pixel(original[k], src@[k], alpha@[k], swap),
            forall|k: int| i <= k < dst@.len() ==> dst@[k] == original[k],
        decreases n - i,
    {
        let a = alpha[i];
        if a != 0 {
            let s = src[i];
            let d = dst[i];
            let color = if a == 255 {
                s
            } else {
                alpha_pixel(if swap { swap16_exec(d) } else { d }, s, a)
            };
            dst[i] = if swap { swap16_exec(color) } else { color };
        }
        i = i + 1;
    }
    assert(dst@ =~= alpha_scalar_spec(original, src@, alpha@, swap));
}

/// Blends `src` over `dst` pixel by pixel with coverage `alpha`, over the
/// common length of the three slices. Zero coverage keeps the pixel, full
/// coverage copies the source. With `wire`, the stored destination words
/// are big-endian: they are read and written byte-swapped on a
/// little-endian host.
pub fn alpha_scalar(dst: &mut [u16], src: &[u16], alpha: &[u8], wire: bool)
    ensures
        !wire ==> final(dst)@ == alpha_scalar_spec(old(dst)@, src@, alpha@, false),
        wire ==> final(dst)@ == alpha_scalar_spec(old(dst)@, src@, alpha@, false)
            || final(dst)@ == alpha_scalar_spec(old(dst)@, src@, alpha@, true),
{
    let swap = wire && u16_to_be(1) != 1;
    alpha_scalar_ordered(dst, src, alpha, swap);
}


/// The 16-byte boundary at or below `x`.
pub open spec fn floor16(x: int) -> int {
    x - x % 16
}

/// The 16-byte boundary at or above `x`.
pub open spec fn ceil16(x: int) -> int {
    (x + 15) / 16 * 16
}

pub open spec fn min_int(a: int, b: int) -> int {
    if a <= b { a } else { b }
}

/// Pixels before the destination reaches a 16-byte boundary.
pub open spec fn destination_prefix(dst: int, len: int) -> int {
    min_int(((16 - dst % 16) % 16) / 2, len)
}

/// `(prefix, bulk)` of `vector_span`: the bulk starts at the first 16-byte
/// boundary of the destination, and when the source backing is not
/// 16-byte aligned and padded, the prefix moves on by a vector when the
/// enclosing source vector would start before the backing, and the bulk
/// stops where the enclosing source vector would pass its end.
pub open spec fn vector_span_spec(dst: int, source: int, source_len: int, start: int, len: int) -> (int, int) {
    let p0 = destination_prefix(dst, len);
    if source % 16 == 0 && (2 * source_len) % 16 == 0 {
        (p0, (len - p0) / 8 * 8)
    } else {
        let phase = ((source + (start + p0) * 2) % 16) / 2;
        let p = if phase > start + p0 { min_int(p0 + 8, len) } else { p0 };
        let extra = if phase == 0 { 0 } else { 8 - phase };
        let available = if source_len - (start + p + extra) > 0 { source_len - (start + p + extra) } else { 0 };
        (p, min_int(len - p, available) / 8 * 8)
    }
}

proof fn lemma_floor_ceil16(x: int)
    requires
        x >= 0,
    ensures
        floor16(x) <= x,
        floor16(x) % 16 == 0,
        floor16(x + 16) == floor16(x) + 16,
        x % 16 == 0 ==> floor16(x) == x && ceil16(x) == x,
        ceil16(x) == x + (16 - x % 16) % 16,
        ceil16(x) % 16 == 0,
{
    let q = x / 16;
    let r = x % 16;
    assert(x == 16 * q + r && 0 <= r < 16);
    assert((x + 16) % 16 == r && (x + 16) / 16 == q + 1);
    if r == 0 {
        assert((x + 15) / 16 == q);
    } else {
        assert((x + 15) / 16 == q + 1);
    }
}

/// A bound between two addresses is kept by rounding both up to 16.
proof fn lemma_ceil16_monotone(x: int, y: int)
    requires
        0 <= x <= y,
    ensures
        ceil16(x) <= ceil16(y),
{
    lemma_floor_ceil16(x);
    lemma_floor_ceil16(y);
    assert((x + 15) / 16 <= (y + 15) / 16);
}

/// Adding whole vectors of pixels keeps the byte phase.
proof fn lemma_add_vectors_keeps_phase(x: int, pixels: int)
    requires
        x >= 0,
        pixels >= 0,
        pixels % 8 == 0,
    ensures
        (x + 2 * pixels) % 16 == x % 16,
{
    let q = pixels / 8;
    assert(2 * pixels == 16 * q);
    vstd::arithmetic::div_mod::lemma_mod_multiples_vanish(q, x, 16);
}

/// After the destination prefix, an even destination sits on a 16-byte
/// boundary, and stays there after further whole vectors.
proof fn lemma_destination_aligned(dst: int, len: int, extra_vectors: int)
    requires
        dst >= 0,
        len >= 0,
        dst % 2 == 0,
        destination_prefix(dst, len) < len,
        extra_vectors >= 0,
    ensures
        (dst + 2 * (destination_prefix(dst, len) + 8 * extra_vectors)) % 16 == 0,
{
    let p = destination_prefix(dst, len);
    assert(dst + 2 * p == dst + (16 - dst % 16) % 16);
    lemma_floor_ceil16(dst);
    assert((dst + 2 * p) % 16 == 0);
    lemma_add_vectors_keeps_phase(dst + 2 * p, 8 * extra_vectors);
}

/// The unaligned case of `vector_span_spec`, over its intermediate values.
proof fn lemma_unaligned_reads(source: int, source_len: int, start: int, p0: int, phase: int, prefix: int, bulk: int)
    requires
        source >= 0,
        start >= 0,
        p0 >= 0,
        source % 2 == 0,
        phase == ((source + 2 * (start + p0)) % 16) / 2,
        prefix == p0 || (phase > start + p0 && prefix == p0 + 8),
        prefix == p0 ==> phase <= start + p0,
        bulk > 0,
        bulk % 8 == 0,
        start + prefix + (if phase == 0 { 0 } else { 8 - phase }) + bulk <= source_len,
    ensures
        floor16(source + 2 * (start + prefix)) >= source,
        ceil16(source + 2 * (start + prefix + bulk)) <= source + 2 * source_len,
{
    let first0 = source + 2 * (start + p0);
    let first = source + 2 * (start + prefix);
    assert(first0 % 2 == 0);
    assert((first0 % 16) % 2 == 0) by {
        vstd::arithmetic::div_mod::lemma_mod_mod(first0, 2, 8);
    }
    assert(first0 % 16 == 2 * phase);
    if prefix != p0 {
        lemma_add_vectors_keeps_phase(first0, 8);
    }
    assert(first % 16 == 2 * phase);
    lemma_add_vectors_keeps_phase(first, bulk);
    lemma_floor_ceil16(first + 2 * bulk);
}

/// The 16-byte aligned case of `vector_span_spec`.
proof fn lemma_aligned_reads(source: int, source_len: int, start: int, prefix: int, bulk: int)
    requires
        source >= 0,
        start >= 0,
        prefix >= 0,
        bulk >= 0,
        source % 16 == 0,
        (2 * source_len) % 16 == 0,
        start + prefix + bulk <= source_len,
    ensures
        floor16(source + 2 * (start + prefix)) >= source,
        ceil16(source + 2 * (start + prefix + bulk)) <= source + 2 * source_len,
{
    let first = source + 2 * (start + prefix);
    lemma_floor_ceil16(first);
    lemma_floor_ceil16(source + 2 * source_len);
    assert(first % 16 == (2 * (start + prefix)) % 16) by {
        vstd::arithmetic::div_mod::lemma_mod_multiples_vanish(source / 16, 2 * (start + prefix), 16);
    }
    assert(source + 2 * source_len == 16 * (source / 16 + (2 * source_len) / 16));
    assert((source + 2 * source_len) % 16 == 0) by {
        vstd::arithmetic::div_mod::lemma_mod_multiples_basic(source / 16 + (2 * source_len) / 16, 16);
    }
    lemma_ceil16_monotone(first + 2 * bulk, source + 2 * source_len);
}

/// Rounding down to whole vectors keeps a value below its bound.
proof fn lemma_round_down8(x: int)
    requires
        x >= 0,
    ensures
        0 <= x / 8 * 8 <= x,
        (x / 8 * 8) % 8 == 0,
{
    vstd::arithmetic::div_mod::lemma_fundamental_div_mod(x, 8);
    vstd::arithmetic::div_mod::lemma_mod_multiples_basic(x / 8, 8);
}

/// Reads of the bulk of `vector_span_spec` stay in the source backing.
proof fn lemma_vector_span_reads(dst: int, source: int, source_len: int, start: int, len: int)
    requires
        dst >= 0,
        source >= 0,
        start >= 0,
        len >= 0,
        start + len <= source_len,
        source % 2 == 0,
        vector_span_spec(dst, source, source_len, start, len).1 > 0,
    ensures
        floor16(source + 2 * (start + vector_span_spec(dst, source, source_len, start, len).0)) >= source,
        ceil16(source + 2 * (start + vector_span_spec(dst, source, source_len, start, len).0
            + vector_span_spec(dst, source, source_len, start, len).1)) <= source + 2 * source_len,
{
    let p0 = destination_prefix(dst, len);
    if source % 16 == 0 && (2 * source_len) % 16 == 0 {
        let bulk = (len - p0) / 8 * 8;
        lemma_round_down8(len - p0);
        lemma_aligned_reads(source, source_len, start, p0, bulk);
    } else {
        let phase = ((source + (start + p0) * 2) % 16) / 2;
        let prefix = if phase > start + p0 { min_int(p0 + 8, len) } else { p0 };
        let extra = if phase == 0 { 0 } else { 8 - phase };
        let available = if source_len - (start + prefix + extra) > 0 { source_len - (start + prefix + extra) } else { 0 };
        let usable = min_int(len - prefix, available);
        let bulk = usable / 8 * 8;
        lemma_round_down8(usable);
        assert(start + prefix + extra + bulk <= source_len);
        lemma_unaligned_reads(source, source_len, start, p0, phase, prefix, bulk);
    }
}

/// Splits a blit of `len` pixels, read from a source backing of
/// `source_len` pixels at byte address `source` starting at pixel `start`
/// and written at byte address `dst`, into a scalar prefix and a bulk of
/// whole 8-pixel vectors. When the bulk is not empty, it is written at a
/// 16-byte boundary of an even destination, and for an even source every
/// 16-byte vector that encloses the bulk's reads lies in the backing.
#[verifier::rlimit(100)]
pub fn vector_span(dst: usize, source: usize, source_len: usize, start: usize, len: usize) -> (result: (usize, usize))
    requires
        start + len <= source_len,
        source + 2 * source_len <= usize::MAX,
    ensures
        (result.0 as int, result.1 as int) == vector_span_spec(dst as int, source as int, source_len as int, start as int, len as int),
        result.0 + result.1 <= len,
        result.1 % 8 == 0,
        dst % 2 == 0 && result.1 > 0 ==> (dst + 2 * result.0) % 16 == 0,
        source % 2 == 0 && result.1 > 0 ==> floor16(source + 2 * (start + result.0)) >= source,
        source % 2 == 0 && result.1 > 0 ==> ceil16(source + 2 * (start + result.0 + result.1)) <= source + 2 * source_len,
{
    let mut prefix: usize = ((16 - dst % 16) % 16) / 2;
    if prefix > len {
        prefix = len;
    }
    let result = if source % 16 == 0 && (source_len * 2) % 16 == 0 {
        (prefix, (len - prefix) / 8 * 8)
    } else {
        let phase: usize = ((source + (start + prefix) * 2) % 16) / 2;
        if phase > start + prefix {
            prefix = if prefix + 8 < len { prefix + 8 } else { len };
        }
        let extra: usize = if phase == 0 { 0 } else { 8 - phase };
        let available: usize = source_len.saturating_sub(start + prefix + extra);
        let remaining: usize = len - prefix;
        let usable: usize = if remaining < available { remaining } else { available };
        (prefix, usable / 8 * 8)
    };
    proof {
        let p0 = destination_prefix(dst as int, len as int);
        if dst % 2 == 0 && result.1 > 0 {
            if result.0 == p0 {
                lemma_destination_aligned(dst as int, len as int, 0);
            } else {
                lemma_destination_aligned(dst as int, len as int, 1);
            }
        }
        if source % 2 == 0 && result.1 > 0 {
            lemma_vector_span_reads(dst as int, source as int, source_len as int, start as int, len as int);
        }
    }
    result
}


/// The alpha prefix loop of `alpha_span`: whole vectors are added to the
/// prefix while the 16-byte vector enclosing the first coverage byte would
/// start before the coverage backing.
pub open spec fn alpha_advance(alpha: int, start: int, prefix: int, len: int) -> int
    decreases len - prefix,
{
    if prefix < len && floor16(alpha + start + prefix) < alpha {
        alpha_advance(alpha, start, min_int(prefix + 8, len), len)
    } else {
        prefix
    }
}

/// The bulk loop of `alpha_span`: whole vectors are dropped from the bulk
/// while the 16-byte vector enclosing its last source or coverage read
/// would pass the end of its backing.
pub open spec fn alpha_shrink(source: int, source_len: int, alpha: int, alpha_len: int, start: int, prefix: int, bulk: int) -> int
    decreases bulk,
{
    if bulk >= 8 && (ceil16(source + 2 * (start + prefix + bulk)) > source + 2 * source_len
        || ceil16(alpha + start + prefix + bulk) > alpha + alpha_len) {
        alpha_shrink(source, source_len, alpha, alpha_len, start, prefix, bulk - 8)
    } else {
        bulk
    }
}

/// `(prefix, bulk)` of `alpha_span`.
pub open spec fn alpha_span_spec(dst: int, source: int, source_len: int, alpha: int, alpha_len: int, start: int, len: int) -> (int, int) {
    if source % 16 == 0 && (2 * source_len) % 16 == 0 && alpha % 16 == 0 && alpha_len % 16 == 0 {
        let p = destination_prefix(dst, len);
        (p, (len - p) / 8 * 8)
    } else {
        let p = alpha_advance(alpha, start, vector_span_spec(dst, source, source_len, start, len).0, len);
        (p, alpha_shrink(source, source_len, alpha, alpha_len, start, p, (len - p) / 8 * 8))
    }
}

proof fn lemma_alpha_advance(alpha: int, start: int, prefix: int, len: int)
    requires
        alpha >= 0,
        start >= 0,
        0 <= prefix <= len,
    ensures
        prefix <= alpha_advance(alpha, start, prefix, len) <= len,
        alpha_advance(alpha, start, prefix, len) < len ==> {
            &&& (alpha_advance(alpha, start, prefix, len) - prefix) % 8 == 0
            &&& floor16(alpha + start + alpha_advance(alpha, start, prefix, len)) >= alpha
        },
    decreases len - prefix,
{
    if prefix < len && floor16(alpha + start + prefix) < alpha {
        let next = min_int(prefix + 8, len);
        lemma_alpha_advance(alpha, start, next, len);
        let r = alpha_advance(alpha, start, next, len);
        if r < len {
            assert(next == prefix + 8);
            assert((r - prefix) == (r - next) + 8);
            vstd::arithmetic::div_mod::lemma_mod_adds(r - next, 8, 8);
        }
    }
}

proof fn lemma_alpha_shrink(source: int, source_len: int, alpha: int, alpha_len: int, start: int, prefix: int, bulk: int)
    requires
        bulk >= 0,
        bulk % 8 == 0,
    ensures
        0 <= alpha_shrink(source, source_len, alpha, alpha_len, start, prefix, bulk) <= bulk,
        alpha_shrink(source, source_len, alpha, alpha_len, start, prefix, bulk) % 8 == 0,
        alpha_shrink(source, source_len, alpha, alpha_len, start, prefix, bulk) > 0 ==> {
            let b = alpha_shrink(source, source_len, alpha, alpha_len, start, prefix, bulk);
            &&& ceil16(source + 2 * (start + prefix + b)) <= source + 2 * source_len
            &&& ceil16(alpha + start + prefix + b) <= alpha + alpha_len
        },
    decreases bulk,
{
    if bulk >= 8 && (ceil16(source + 2 * (start + prefix + bulk)) > source + 2 * source_len
        || ceil16(alpha + start + prefix + bulk) > alpha + alpha_len) {
        lemma_alpha_shrink(source, source_len, alpha, alpha_len, start, prefix, bulk - 8);
    }
}

/// Whole vectors move a 16-byte boundary by whole vectors.
proof fn lemma_floor16_add_vectors(x: int, k: int)
    requires
        x >= 0,
        k >= 0,
    ensures
        floor16(x + 16 * k) == floor16(x) + 16 * k,
{
    vstd::arithmetic::div_mod::lemma_mod_multiples_vanish(k, x, 16);
}

/// The vector-span prefix, when short of the end, leaves an even
/// destination on a 16-byte boundary and does not start the enclosing
/// source vector before an even backing.
proof fn lemma_vector_prefix(dst: int, source: int, source_len: int, start: int, len: int)
    requires
        dst >= 0,
        source >= 0,
        start >= 0,
        len >= 0,
        start + len <= source_len,
    ensures
        0 <= vector_span_spec(dst, source, source_len, start, len).0 <= len,
        vector_span_spec(dst, source, source_len, start, len).0 < len && dst % 2 == 0
            ==> (dst + 2 * vector_span_spec(dst, source, source_len, start, len).0) % 16 == 0,
        vector_span_spec(dst, source, source_len, start, len).0 < len && source % 2 == 0
            ==> floor16(source + 2 * (start + vector_span_spec(dst, source, source_len, start, len).0)) >= source,
{
    let p0 = destination_prefix(dst, len);
    let p = vector_span_spec(dst, source, source_len, start, len).0;
    if p < len && dst % 2 == 0 {
        if p == p0 {
            lemma_destination_aligned(dst, len, 0);
        } else {
            lemma_destination_aligned(dst, len, 1);
        }
    }
    if p < len && source % 2 == 0 {
        if source % 16 == 0 && (2 * source_len) % 16 == 0 {
            lemma_aligned_reads(source, source_len, start, p, 0);
        } else {
            let phase = ((source + (start + p0) * 2) % 16) / 2;
            let first0 = source + 2 * (start + p0);
            assert((first0 % 16) % 2 == 0) by {
                vstd::arithmetic::div_mod::lemma_mod_mod(first0, 2, 8);
            }
            lemma_floor_ceil16(first0);
            if p != p0 {
                lemma_floor16_add_vectors(first0, 1);
            }
        }
    }
}

/// The 16-byte aligned coverage case.
proof fn lemma_aligned_coverage(alpha: int, alpha_len: int, start: int, prefix: int, bulk: int)
    requires
        alpha >= 0,
        start >= 0,
        prefix >= 0,
        bulk >= 0,
        alpha % 16 == 0,
        alpha_len % 16 == 0,
        start + prefix + bulk <= alpha_len,
    ensures
        floor16(alpha + start + prefix) >= alpha,
        ceil16(alpha + start + prefix + bulk) <= alpha + alpha_len,
{
    let first = alpha + start + prefix;
    lemma_floor_ceil16(first);
    lemma_floor_ceil16(alpha + alpha_len);
    assert(first % 16 == (start + prefix) % 16) by {
        vstd::arithmetic::div_mod::lemma_mod_multiples_vanish(alpha / 16, start + prefix, 16);
    }
    assert((alpha + alpha_len) % 16 == 0) by {
        vstd::arithmetic::div_mod::lemma_mod_multiples_vanish(alpha / 16, alpha_len, 16);
    }
    lemma_ceil16_monotone(first + bulk, alpha + alpha_len);
}

/// The properties of `alpha_span_spec` that make its vector reads safe.
proof fn lemma_alpha_span_props(dst: int, source: int, source_len: int, alpha: int, alpha_len: int, start: int, len: int)
    requires
        dst >= 0,
        source >= 0,
        alpha >= 0,
        start >= 0,
        len >= 0,
        start + len <= source_len,
        start + len <= alpha_len,
    ensures
        ({
            let (prefix, bulk) = alpha_span_spec(dst, source, source_len, alpha, alpha_len, start, len);
            &&& 0 <= prefix
            &&& 0 <= bulk
            &&& prefix + bulk <= len
            &&& bulk % 8 == 0
            &&& dst % 2 == 0 && bulk > 0 ==> (dst + 2 * prefix) % 16 == 0
            &&& source % 2 == 0 && bulk > 0 ==> floor16(source + 2 * (start + prefix)) >= source
            &&& bulk > 0 ==> ceil16(source + 2 * (start + prefix + bulk)) <= source + 2 * source_len
            &&& bulk > 0 ==> floor16(alpha + start + prefix) >= alpha
            &&& bulk > 0 ==> ceil16(alpha + start + prefix + bulk) <= alpha + alpha_len
        }),
{
    let (prefix, bulk) = alpha_span_spec(dst, source, source_len, alpha, alpha_len, start, len);
    if source % 16 == 0 && (2 * source_len) % 16 == 0 && alpha % 16 == 0 && alpha_len % 16 == 0 {
        lemma_round_down8(len - prefix);
        if dst % 2 == 0 && bulk > 0 {
            lemma_destination_aligned(dst, len, 0);
        }
        lemma_aligned_reads(source, source_len, start, prefix, bulk);
        lemma_aligned_coverage(alpha, alpha_len, start, prefix, bulk);
    } else {
        let p1 = vector_span_spec(dst, source, source_len, start, len).0;
        lemma_vector_prefix(dst, source, source_len, start, len);
        lemma_alpha_advance(alpha, start, p1, len);
        lemma_round_down8(len - prefix);
        lemma_alpha_shrink(source, source_len, alpha, alpha_len, start, prefix, (len - prefix) / 8 * 8);
        if bulk > 0 {
            let k = (prefix - p1) / 8;
            assert(prefix - p1 == 8 * k) by {
                vstd::arithmetic::div_mod::lemma_fundamental_div_mod(prefix - p1, 8);
            }
            if dst % 2 == 0 {
                lemma_add_vectors_keeps_phase(dst + 2 * p1, 8 * k);
            }
            if source % 2 == 0 {
                lemma_floor16_add_vectors(source + 2 * (start + p1), k);
            }
        }
    }
}

/// Splits an alpha blit like `vector_span`, where the coverage bytes come
/// from a second backing of `alpha_len` bytes at address `alpha`: when
/// both backings are 16-byte aligned and padded, only the destination
/// prefix is taken; otherwise the prefix grows until the first enclosing
/// coverage vector lies in its backing, and the bulk shrinks until the
/// last enclosing source and coverage vectors do.
#[verifier::rlimit(100)]
pub fn alpha_span(
    dst: usize,
    source: usize,
    source_len: usize,
    alpha: usize,
    alpha_len: usize,
    start: usize,
    len: usize,
) -> (result: (usize, usize))
    requires
        start + len <= source_len,
        start + len <= alpha_len,
        source + 2 * source_len + 16 <= usize::MAX,
        alpha + alpha_len + 16 <= usize::MAX,
    ensures
        (result.0 as int, result.1 as int) == alpha_span_spec(dst as int, source as int, source_len as int, alpha as int, alpha_len as int, start as int, len as int),
        result.0 + result.1 <= len,
        result.1 % 8 == 0,
        dst % 2 == 0 && result.1 > 0 ==> (dst + 2 * result.0) % 16 == 0,
        source % 2 == 0 && result.1 > 0 ==> floor16(source + 2 * (start + result.0)) >= source,
        result.1 > 0 ==> ceil16(source + 2 * (start + result.0 + result.1)) <= source + 2 * source_len,
        result.1 > 0 ==> floor16(alpha + start + result.0) >= alpha,
        result.1 > 0 ==> ceil16(alpha + start + result.0 + result.1) <= alpha + alpha_len,
{
    proof {
        lemma_alpha_span_props(dst as int, source as int, source_len as int, alpha as int, alpha_len as int, start as int, len as int);
    }
    if source % 16 == 0 && (source_len * 2) % 16 == 0 && alpha % 16 == 0 && alpha_len % 16 == 0 {
        let mut prefix: usize = ((16 - dst % 16) % 16) / 2;
        if prefix > len {
            prefix = len;
        }
        return (prefix, (len - prefix) / 8 * 8);
    }
    let (mut prefix, _) = vector_span(dst, source, source_len, start, len);
    let ghost p1 = prefix as int;
    while prefix < len && (alpha + start + prefix) / 16 * 16 < alpha
        invariant
            start + len <= alpha_len,
            alpha + alpha_len + 16 <= usize::MAX,
            p1 <= prefix <= len,
            alpha_advance(alpha as int, start as int, prefix as int, len as int)
                == alpha_advance(alpha as int, start as int, p1, len as int),
        decreases len - prefix,
    {
        proof {
            assert((alpha + start + prefix) / 16 * 16 == floor16(alpha + start + prefix)) by {
                vstd::arithmetic::div_mod::lemma_fundamental_div_mod(alpha + start + prefix, 16);
            }
        }
        prefix = if prefix + 8 < len { prefix + 8 } else { len };
    }
    proof {
        if prefix < len {
            assert((alpha + start + prefix) / 16 * 16 == floor16(alpha + start + prefix)) by {
                vstd::arithmetic::div_mod::lemma_fundamental_div_mod(alpha + start + prefix, 16);
            }
        }
    }
    let mut bulk: usize = (len - prefix) / 8 * 8;
    let ghost b0 = bulk as int;
    proof {
        lemma_round_down8(len - prefix);
    }
    while bulk > 0
        && ((source + 2 * (start + prefix + bulk) + 15) / 16 * 16 > source + source_len * 2
        || (alpha + start + prefix + bulk + 15) / 16 * 16 > alpha + alpha_len)
        invariant
            start + len <= source_len,
            start + len <= alpha_len,
            source + 2 * source_len + 16 <= usize::MAX,
            alpha + alpha_len + 16 <= usize::MAX,
            prefix <= len,
            bulk <= len - prefix,
            bulk % 8 == 0,
            alpha_shrink(source as int, source_len as int, alpha as int, alpha_len as int, start as int, prefix as int, bulk as int)
                == alpha_shrink(source as int, source_len as int, alpha as int, alpha_len as int, start as int, prefix as int, b0),
        decreases bulk,
    {
        bulk = bulk - 8;
    }
    (prefix, bulk)
}


/// The pixel an opaque copy leaves: the source word, byte-swapped where
/// stored words hold their bytes in the opposite order.
pub open spec fn copy_pixel(s: u16, swap: bool) -> u16 {
    if swap { swap16(s) } else { s }
}

/// The destination after blitting the span of `source` that starts at
/// `start`: with coverage, each pixel is blended as `alpha_scalar` blends it
/// with the coverage byte at the same position; without, the source is
/// copied in.
pub open spec fn blit_span_spec(
    dst: Seq<u16>,
    source: Seq<u16>,
    start: int,
    alpha: Option<Seq<u8>>,
    swap: bool,
) -> Seq<u16> {
    Seq::new(dst.len(), |i: int|
        match alpha {
            Some(a) => alpha_scalar_pixel(dst[i], source[start + i], a[start + i], swap),
            None => copy_pixel(source[start + i], swap),
        })
}

/// The coverage bytes, where there are any.
pub open spec fn coverage_view(alpha: Option<&[u8]>) -> Option<Seq<u8>> {
    match alpha {
        Some(a) => Some(a@),
        None => None,
    }
}

/// Blits the span of `source` that starts at `start` into `dst` as
/// `PieBlitter::blit_from` does, with the byte order of the stored words
/// given: `swap` when they hold their bytes in the opposite order to the
/// host's. Nothing is counted.
pub fn blit_span(dst: &mut [u16], source: &[u16], start: usize, alpha: Option<&[u8]>, swap: bool)
    requires
        start + old(dst)@.len() <= source@.len(),
        alpha matches Some(a) ==> start + old(dst)@.len() <= a@.len(),
    ensures
        final(dst)@ == blit_span_spec(old(dst)@, source@, start as int, coverage_view(alpha), swap),
{
    let ghost original = dst@;
    let ghost coverage = coverage_view(alpha);
    let n = dst.len();
    let source_len = source.len();
    let mut i: usize = 0;
    while i < n
        invariant
            n == dst@.len(),
            source_len == source@.len(),
            dst@.len() == original.len(),
            start + n <= source@.len(),
            coverage == coverage_view(alpha),
            alpha matches Some(a) ==> start + n <= a@.len(),
            i <= n,
            forall|k: int| 0 <= k < i ==> dst@[k] == #[trigger] blit_span_spec(original, source@, start as int, coverage, swap)[k],
            forall|k: int| i <= k < n ==> dst@[k] == original[k],
        decreases n - i,
    {
        let s = source[start + i];
        let d = dst[i];
        let color = match alpha {
            Some(a) => {
                let c = a[start + i];
                if c == 0 {
                    d
                } else {
                    let blended = if c == 255 {
                        s
                    } else {
                        alpha_pixel(if swap { swap16_exec(d) } else { d }, s, c)
                    };
                    if swap { swap16_exec(blended) } else { blended }
                }
            },
            None => if swap { swap16_exec(s) } else { s },
        };
        dst[i] = color;
        i = i + 1;
    }
    assert(dst@ =~= blit_span_spec(original, source@, start as int, coverage, swap));
}

/// Per-kind blit counters: index 0 counts copies, index 1 alpha blits.
pub struct PieBlitter {
    cycles: [u32; 2],
    pixels: [u32; 2],
}

impl PieBlitter {
    /// Cycles spent on copies and on alpha blits.
    pub closed spec fn spec_cycles(&self) -> Seq<u32> {
        self.cycles@
    }

    /// Pixels written by copies and by alpha blits.
    pub closed spec fn spec_pixels(&self) -> Seq<u32> {
        self.pixels@
    }

    /// There are two counters of each sort, one per kind of blit, so a blit
    /// of one kind leaves the counters of the other kind as they were.
    pub proof fn lemma_two_kinds(&self)
        ensures
            self.spec_cycles().len() == 2,
            self.spec_pixels().len() == 2,
    {
    }

    /// Adds one blit of `pixels` pixels that took `elapsed_cycles` cycles to
    /// the counters of its kind; cycles wrap, pixel counts must fit.
    pub fn record(&mut self, alpha: bool, elapsed_cycles: u32, pixels: usize)
        requires
            old(self).spec_pixels()[if alpha { 1int } else { 0int }] + (pixels as u32) <= u32::MAX,
        ensures
            ({
                let kind = if alpha { 1int } else { 0int };
                &&& final(self).spec_cycles() == old(self).spec_cycles().update(kind,
                    old(self).spec_cycles()[kind].wrapping_add(elapsed_cycles))
                &&& final(self).spec_pixels() == old(self).spec_pixels().update(kind,
                    (old(self).spec_pixels()[kind] + (pixels as u32)) as u32)
            }),
    {
        let kind: usize = if alpha { 1 } else { 0 };
        self.cycles[kind] = self.cycles[kind].wrapping_add(elapsed_cycles);
        self.pixels[kind] = self.pixels[kind] + pixels as u32;
    }

    /// Blits the span of `source` that starts at `start` and is as long as
    /// `dst` into `dst`: blended with the coverage bytes at the same
    /// positions of `alpha` where it is given, copied otherwise. With
    /// `wire`, stored words are big-endian and are read and written
    /// byte-swapped on a little-endian host. The blit is then counted under
    /// its kind with the `elapsed_cycles` that the caller measured for it.
    pub fn blit_from(
        &mut self,
        dst: &mut [u16],
        source: &[u16],
        start: usize,
        alpha: Option<&[u8]>,
        wire: bool,
        elapsed_cycles: u32,
    )
        requires
            start + old(dst)@.len() <= source@.len(),
            alpha matches Some(a) ==> start + old(dst)@.len() <= a@.len(),
            old(self).spec_pixels()[if alpha is Some { 1int } else { 0int }] + old(dst)@.len()
                <= u32::MAX,
        ensures
            !wire ==> final(dst)@ == blit_span_spec(old(dst)@, source@, start as int, coverage_view(alpha), false),
            wire ==> final(dst)@ == blit_span_spec(old(dst)@, source@, start as int, coverage_view(alpha), false)
                || final(dst)@ == blit_span_spec(old(dst)@, source@, start as int, coverage_view(alpha), true),
            ({
                let kind = if alpha is Some { 1int } else { 0int };
                &&& final(self).spec_cycles() == old(self).spec_cycles().update(kind,
                    old(self).spec_cycles()[kind].wrapping_add(elapsed_cycles))
                &&& final(self).spec_pixels() == old(self).spec_pixels().update(kind,
                    (old(self).spec_pixels()[kind] + old(dst)@.len()) as u32)
            }),
    {
        let swap = wire && u16_to_be(1) != 1;
        blit_span(dst, source, start, alpha, swap);
        self.record(alpha.is_some(), elapsed_cycles, dst.len());
    }

    /// Blits all of `src` into `dst`, which has its length, with coverage
    /// `alpha` of the same length where it is given; see `blit_from`.
    pub fn blit(&mut self, dst: &mut [u16], src: &[u16], alpha: Option<&[u8]>, wire: bool, elapsed_cycles: u32)
        requires
            old(dst)@.len() == src@.len(),
            alpha matches Some(a) ==> a@.len() == src@.len(),
            old(self).spec_pixels()[if alpha is Some { 1int } else { 0int }] + src@.len() <= u32::MAX,
        ensures
            !wire ==> final(dst)@ == blit_span_spec(old(dst)@, src@, 0, coverage_view(alpha), false),
            wire ==> final(dst)@ == blit_span_spec(old(dst)@, src@, 0, coverage_view(alpha), false)
                || final(dst)@ == blit_span_spec(old(dst)@, src@, 0, coverage_view(alpha), true),
            ({
                let kind = if alpha is Some { 1int } else { 0int };
                &&& final(self).spec_cycles() == old(self).spec_cycles().update(kind,
                    old(self).spec_cycles()[kind].wrapping_add(elapsed_cycles))
                &&& final(self).spec_pixels() == old(self).spec_pixels().update(kind,
                    (old(self).spec_pixels()[kind] + src@.len()) as u32)
            }),
    {
        self.blit_from(dst, src, 0, alpha, wire, elapsed_cycles);
    }

    /// Copy and alpha microseconds at 240 cycles per microsecond, then the
    /// copy and alpha pixel counts.
    pub fn profile(&self) -> (result: [u32; 4])
        ensures
            result@ == seq![
                self.spec_cycles()[0] / 240,
                self.spec_cycles()[1] / 240,
                self.spec_pixels()[0],
                self.spec_pixels()[1],
            ],
    {
        let result = [self.cycles[0] / 240, self.cycles[1] / 240, self.pixels[0], self.pixels[1]];
        assert(result@ =~= seq![
            self.spec_cycles()[0] / 240,
            self.spec_cycles()[1] / 240,
            self.spec_pixels()[0],
            self.spec_pixels()[1],
        ]);
        result
    }
}

impl Default for PieBlitter {
    fn default() -> (result: Self)
        ensures
            result.spec_cycles() == seq![0u32, 0u32],
            result.spec_pixels() == seq![0u32, 0u32],
            result.spec_cycles().len() == 2,
            result.spec_pixels().len() == 2,
    {
        let result = PieBlitter { cycles: [0, 0], pixels: [0, 0] };
        assert(result.cycles@ =~= seq![0u32, 0u32]);
        assert(result.pixels@ =~= seq![0u32, 0u32]);
        result
    }
}

} // verus!
