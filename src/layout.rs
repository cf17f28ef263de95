//! Sizes and strides of the heightmap texture and of the buffers that carry
//! it to and from the host: workgroup counts of the terrain dispatch, the
//! padded row pitch of a texture copy, and byte sizes.
use vstd::prelude::*;
use vstd::arithmetic::div_mod::{lemma_fundamental_div_mod, lemma_mod_multiples_basic, lemma_mod_pos_bound};
use vstd::arithmetic::mul::lemma_mul_upper_bound;

verus! {

/// Edge of the square tile of invocations that one workgroup covers.
pub const WORKGROUP_SIZE: u32 = 32;

/// Bytes per texel: four channels of 32-bit floats.
pub const TEXEL_BYTES: u32 = 16;

/// `a / b` rounded up.
pub open spec fn div_ceil(a: int, b: int) -> int {
    (a + b - 1) / b
}

/// Workgroups needed along one axis to cover `dimension` texels:
/// `ceil(dimension / 32)`.
pub fn workgroup_count(dimension: u32) -> (n: u32)
    ensures
        n == div_ceil(dimension as int, WORKGROUP_SIZE as int),
{
    dimension / WORKGROUP_SIZE + if dimension % WORKGROUP_SIZE == 0 { 0 } else { 1 }
}

/// Workgroup grid `(x, y)` of one dispatch over a `width` by `height`
/// texture.
pub fn dispatch_size(width: u32, height: u32) -> (grid: (u32, u32))
    ensures
        grid.0 == div_ceil(width as int, WORKGROUP_SIZE as int),
        grid.1 == div_ceil(height as int, WORKGROUP_SIZE as int),
{
    (workgroup_count(width), workgroup_count(height))
}

/// The smallest multiple of `alignment` that holds `bytes`.
pub open spec fn is_padded_to(padded: int, bytes: int, alignment: int) -> bool {
    &&& padded % alignment == 0
    &&& bytes <= padded < bytes + alignment
}

/// Row pitch in bytes of a texture copy of rows `width` texels wide: the
/// row's bytes rounded up to the backend's `alignment`. `None` when that
/// does not fit the 32 bits a copy layout holds.
pub fn padded_bytes_per_row(width: u32, alignment: u32) -> (pitch: Option<u32>)
    requires
        alignment > 0,
    ensures
        ({
            let bytes = width * TEXEL_BYTES;
            match pitch {
                Some(p) => is_padded_to(p as int, bytes, alignment as int),
                None => forall|p: int| is_padded_to(p, bytes, alignment as int) ==> p > u32::MAX,
            }
        }),
        (width * TEXEL_BYTES) % (alignment as int) == 0 && width * TEXEL_BYTES <= u32::MAX ==> pitch
            == Some((width * TEXEL_BYTES) as u32),
{
    let bytes: u64 = width as u64 * 16;
    let a: u64 = alignment as u64;
    let rem: u64 = bytes % a;
    proof {
        lemma_mod_pos_bound(bytes as int, a as int);
        assert(bytes <= 0xf_ffff_fff0);
    }
    let padded: u64 = if rem == 0 { bytes } else { bytes + (a - rem) };
    proof {
        lemma_fundamental_div_mod(bytes as int, a as int);
        lemma_mod_multiples_basic(bytes as int / a as int, a as int);
        lemma_mod_multiples_basic(bytes as int / a as int + 1, a as int);
        assert((bytes as int / a as int + 1) * a as int == (bytes as int / a as int) * a as int + a as int)
            by (nonlinear_arith);
        assert forall|p: int| is_padded_to(p, bytes as int, a as int) implies p == padded by {
            lemma_fundamental_div_mod(p, a as int);
            let q = bytes as int / a as int;
            let qp = p / a as int;
            assert(p == a * qp);
            if rem == 0 {
                assert(bytes == a * q);
                assert(a * q <= a * qp < a * q + a);
                assert(qp == q) by (nonlinear_arith)
                    requires
                        a * q <= a * qp < a * q + a,
                        a > 0,
                ;
            } else {
                assert(bytes == a * q + rem);
                assert(a * q < a * qp < a * q + 2 * a);
                assert(qp == q + 1) by (nonlinear_arith)
                    requires
                        a * q < a * qp < a * q + 2 * a,
                        a > 0,
                ;
                assert(a * (q + 1) == a * q + a) by (nonlinear_arith);
            }
        }
    }
    if padded > u32::MAX as u64 {
        None
    } else {
        Some(padded as u32)
    }
}

/// Bytes of the texel data of a `width` by `height` texture of four-channel
/// floats: `width * height * 16`. `None` when that exceeds 64 bits.
pub fn texture_byte_size(width: u32, height: u32) -> (size: Option<u64>)
    ensures
        match size {
            Some(s) => s == width * height * TEXEL_BYTES,
            None => width * height * TEXEL_BYTES > u64::MAX,
        },
{
    proof {
        lemma_mul_upper_bound(width as int, u32::MAX as int, height as int, u32::MAX as int);
    }
    let texels: u64 = width as u64 * height as u64;
    texels.checked_mul(16)
}

/// Bytes of a buffer that receives a `height` rows copy at `bytes_per_row`.
pub fn readback_buffer_size(bytes_per_row: u32, height: u32) -> (size: u64)
    ensures
        size == bytes_per_row * height,
{
    proof {
        lemma_mul_upper_bound(bytes_per_row as int, u32::MAX as int, height as int, u32::MAX as int);
    }
    bytes_per_row as u64 * height as u64
}

/// A buffer larger than the device allows.
#[derive(Clone, Copy, Debug, PartialEq, Eq, Structural)]
pub enum AllocationError {
    ExceedsLimit { requested: u64, limit: u64 },
}

/// Checks a buffer size against the device's largest buffer.
pub fn check_allocation(size: u64, max_buffer_size: u64) -> (r: Result<u64, AllocationError>)
    ensures
        size <= max_buffer_size ==> r == Ok::<u64, AllocationError>(size),
        size > max_buffer_size ==> r == Err::<u64, AllocationError>(
            AllocationError::ExceedsLimit { requested: size, limit: max_buffer_size },
        ),
{
    if size <= max_buffer_size {
        Ok(size)
    } else {
        Err(AllocationError::ExceedsLimit { requested: size, limit: max_buffer_size })
    }
}

/// The tightly packed data of `rows` rows of `row` words, read out of a
/// buffer whose rows start every `pitch` words.
pub open spec fn unpadded_rows(padded: Seq<u32>, row: int, pitch: int, rows: int) -> Seq<u32>
    decreases rows,
{
    if rows <= 0 {
        Seq::empty()
    } else {
        let start = (rows - 1) * pitch;
        unpadded_rows(padded, row, pitch, rows - 1) + padded.subrange(start, start + row)
    }
}

/// Tightly packed rows of `row` words laid out every `pitch` words, the gap
/// after each row filled with zeros.
pub open spec fn padded_rows(data: Seq<u32>, row: int, pitch: int, rows: int) -> Seq<u32>
    decreases rows,
{
    if rows <= 0 {
        Seq::empty()
    } else {
        let start = (rows - 1) * row;
        padded_rows(data, row, pitch, rows - 1) + data.subrange(start, start + row)
            + Seq::new((pitch - row) as nat, |i: int| 0u32)
    }
}

/// Strips the row padding of a texture readback: `rows` rows of `row_words`
/// words each, stored every `pitch_words` words.
pub fn unpad_rows(padded: &Vec<u32>, row_words: usize, pitch_words: usize, rows: usize) -> (data: Vec<u32>)
    requires
        row_words <= pitch_words,
        rows * pitch_words <= padded@.len(),
    ensures
        data@ == unpadded_rows(padded@, row_words as int, pitch_words as int, rows as int),
        data@.len() == rows * row_words,
{
    let plen: usize = padded.len();
    let mut data: Vec<u32> = Vec::new();
    let mut base: usize = 0;
    assert(0 * pitch_words == 0 && 0 * row_words == 0) by (nonlinear_arith);
    for r in 0..rows
        invariant
            row_words <= pitch_words,
            plen == padded@.len(),
            rows * pitch_words <= plen,
            base == r * pitch_words,
            data@ == unpadded_rows(padded@, row_words as int, pitch_words as int, r as int),
            data@.len() == r * row_words,
    {
        assert((r + 1) * pitch_words <= rows * pitch_words) by (nonlinear_arith)
            requires
                r < rows,
        ;
        assert((r + 1) * pitch_words == r * pitch_words + pitch_words) by (nonlinear_arith);
        assert((r + 1) * row_words == r * row_words + row_words) by (nonlinear_arith);
        for c in 0..row_words
            invariant
                row_words <= pitch_words,
                plen == padded@.len(),
                base + pitch_words <= plen,
                data@ == unpadded_rows(padded@, row_words as int, pitch_words as int, r as int)
                    + padded@.subrange(base as int, base + c),
        {
            data.push(padded[base + c]);
            assert(padded@.subrange(base as int, base + c + 1) =~= padded@.subrange(base as int, base + c).push(padded@[base + c]));
        }
        base = base + pitch_words;
    }
    data
}

/// Lays tightly packed rows out for a texture upload: `rows` rows of
/// `row_words` words, each starting `pitch_words` words after the last, the
/// padding zeroed.
pub fn pad_rows(data: &Vec<u32>, row_words: usize, pitch_words: usize, rows: usize) -> (padded: Vec<u32>)
    requires
        row_words <= pitch_words,
        data@.len() == rows * row_words,
        rows * pitch_words <= usize::MAX,
    ensures
        padded@ == padded_rows(data@, row_words as int, pitch_words as int, rows as int),
        padded@.len() == rows * pitch_words,
{
    let mut padded: Vec<u32> = Vec::new();
    let mut base: usize = 0;
    assert(0 * pitch_words == 0 && 0 * row_words == 0) by (nonlinear_arith);
    for r in 0..rows
        invariant
            row_words <= pitch_words,
            data@.len() == rows * row_words,
            rows * pitch_words <= usize::MAX,
            base == r * row_words,
            padded@ == padded_rows(data@, row_words as int, pitch_words as int, r as int),
            padded@.len() == r * pitch_words,
    {
        assert((r + 1) * row_words <= rows * row_words) by (nonlinear_arith)
            requires
                r < rows,
        ;
        assert((r + 1) * pitch_words <= rows * pitch_words) by (nonlinear_arith)
            requires
                r < rows,
        ;
        assert((r + 1) * pitch_words == r * pitch_words + pitch_words) by (nonlinear_arith);
        assert((r + 1) * row_words == r * row_words + row_words) by (nonlinear_arith);
        let ghost before = padded@;
        let dlen: usize = data.len();
        for c in 0..row_words
            invariant
                dlen == data@.len(),
                base + row_words <= dlen,
                padded@ == before + data@.subrange(base as int, base + c),
        {
            padded.push(data[base + c]);
            assert(data@.subrange(base as int, base + c + 1) =~= data@.subrange(base as int, base + c).push(data@[base + c]));
        }
        let ghost with_row = padded@;
        for c in row_words..pitch_words
            invariant
                padded@ == with_row + Seq::new((c - row_words) as nat, |i: int| 0u32),
        {
            padded.push(0);
            assert(Seq::new((c + 1 - row_words) as nat, |i: int| 0u32) =~= Seq::new((c - row_words) as nat, |i: int| 0u32).push(0));
        }
        base = base + row_words;
    }
    padded
}

/// A padded layout holds `rows` rows of `pitch` words.
pub proof fn lemma_padded_rows_len(data: Seq<u32>, row: int, pitch: int, rows: int)
    requires
        0 <= row <= pitch,
        0 <= rows,
        data.len() >= rows * row,
    ensures
        padded_rows(data, row, pitch, rows).len() == rows * pitch,
    decreases rows,
{
    if rows > 0 {
        assert((rows - 1) * row + row == rows * row) by (nonlinear_arith);
        assert((rows - 1) * row <= rows * row) by (nonlinear_arith)
            requires
                0 <= row,
        ;
        assert((rows - 1) * pitch + pitch == rows * pitch) by (nonlinear_arith);
        assert(0 <= (rows - 1) * row) by (nonlinear_arith)
            requires
                0 <= row,
                1 <= rows,
        ;
        lemma_padded_rows_len(data, row, pitch, rows - 1);
    } else {
        assert(rows * pitch == 0) by (nonlinear_arith)
            requires
                rows == 0,
        ;
    }
}

/// Row `n` of a padded layout, for every `n < rows`, is row `n` of the data.
proof fn lemma_padded_row(data: Seq<u32>, row: int, pitch: int, rows: int, n: int)
    requires
        0 <= row <= pitch,
        0 <= rows,
        data.len() >= rows * row,
        0 <= n < rows,
    ensures
        padded_rows(data, row, pitch, rows).subrange(n * pitch, n * pitch + row)
            == data.subrange(n * row, n * row + row),
    decreases rows,
{
    let p = padded_rows(data, row, pitch, rows);
    let prev = padded_rows(data, row, pitch, rows - 1);
    assert((rows - 1) * row + row == rows * row) by (nonlinear_arith);
    assert((rows - 1) * row <= rows * row) by (nonlinear_arith)
        requires
            0 <= row,
    ;
    assert(n * row + row <= rows * row) by (nonlinear_arith)
        requires
            0 <= row,
            0 <= n < rows,
    ;
    assert(0 <= n * row) by (nonlinear_arith)
        requires
            0 <= row,
            0 <= n,
    ;
    lemma_padded_rows_len(data, row, pitch, rows - 1);
    if n + 1 == rows {
        assert(p.subrange(n * pitch, n * pitch + row) =~= data.subrange(n * row, n * row + row));
    } else {
        assert(n * pitch + row <= (rows - 1) * pitch) by (nonlinear_arith)
            requires
                0 <= n,
                n + 1 < rows,
                0 <= row <= pitch,
        ;
        lemma_padded_row(data, row, pitch, rows - 1, n);
        assert(p.subrange(n * pitch, n * pitch + row) =~= prev.subrange(n * pitch, n * pitch + row));
    }
}

/// Padding rows for an upload and stripping them again after a readback
/// gives back exactly the data, for every row width and every pitch at
/// least as wide.
pub proof fn lemma_pad_unpad_round_trip(data: Seq<u32>, row: int, pitch: int, rows: int)
    requires
        0 <= row <= pitch,
        0 <= rows,
        data.len() == rows * row,
    ensures
        unpadded_rows(padded_rows(data, row, pitch, rows), row, pitch, rows) == data,
{
    lemma_unpad_prefix(data, row, pitch, rows, rows);
    assert(data.subrange(0, rows * row) =~= data);
}

proof fn lemma_unpad_prefix(data: Seq<u32>, row: int, pitch: int, rows: int, n: int)
    requires
        0 <= row <= pitch,
        0 <= rows,
        data.len() == rows * row,
        0 <= n <= rows,
    ensures
        unpadded_rows(padded_rows(data, row, pitch, rows), row, pitch, n) == data.subrange(0, n * row),
    decreases n,
{
    if n == 0 {
        assert(n * row == 0) by (nonlinear_arith)
            requires
                n == 0,
        ;
        assert(data.subrange(0, 0) =~= Seq::<u32>::empty());
    } else {
        let m = n - 1;
        lemma_unpad_prefix(data, row, pitch, rows, m);
        lemma_padded_row(data, row, pitch, rows, m);
        assert(m * row + row == n * row) by (nonlinear_arith)
            requires
                m + 1 == n,
        ;
        assert(n * row <= rows * row) by (nonlinear_arith)
            requires
                0 <= row,
                n <= rows,
        ;
        assert(0 <= m * row) by (nonlinear_arith)
            requires
                0 <= row,
                0 <= m,
        ;
        assert(data.subrange(0, n * row) =~= data.subrange(0, m * row) + data.subrange(m * row, m * row + row));
    }
}

} // verus!
