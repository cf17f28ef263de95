//! Framing of the heightmap round trip: texel words read out of a mapped
//! readback buffer whose rows are padded to the copy's row pitch, and texel
//! words laid out at that pitch again for the upload.
use vstd::prelude::*;
use crate::layout::{lemma_pad_unpad_round_trip, pad_rows, padded_rows, unpad_rows, unpadded_rows};

verus! {

/// A copy layout that does not fit the texture or the buffer.
#[derive(Clone, Copy, Debug, PartialEq, Eq, Structural)]
pub enum FramingError {
    /// The row pitch is not a whole number of 32-bit words.
    PitchUnaligned,
    /// The row pitch is shorter than one row of texels.
    PitchTooSmall,
    /// The data is not as long as the texture and the pitch require.
    SizeMismatch,
}

/// The error, if any, that a copy layout gets before any data is looked at.
pub open spec fn pitch_error(width: u32, bytes_per_row: u32) -> Option<FramingError> {
    if bytes_per_row % 4 != 0 {
        Some(FramingError::PitchUnaligned)
    } else if (bytes_per_row as int) < 16 * width {
        Some(FramingError::PitchTooSmall)
    } else {
        None
    }
}

/// Reads the texel words of a `width` by `height` texture out of a mapped
/// readback buffer whose rows start every `bytes_per_row` bytes. The result
/// holds `width * height` texels of four words: `width * height * 16` bytes.
pub fn readback_texels(mapped: &Vec<u32>, width: u32, height: u32, bytes_per_row: u32) -> (r: Result<Vec<u32>, FramingError>)
    ensures
        match pitch_error(width, bytes_per_row) {
            Some(e) => r == Err::<Vec<u32>, FramingError>(e),
            None => if height * (bytes_per_row / 4) <= mapped@.len() {
                r matches Ok(words) && words@ == unpadded_rows(
                    mapped@,
                    4 * width,
                    (bytes_per_row / 4) as int,
                    height as int,
                ) && words@.len() == width * height * 4
            } else {
                r == Err::<Vec<u32>, FramingError>(FramingError::SizeMismatch)
            },
        },
{
    if bytes_per_row % 4 != 0 {
        return Err(FramingError::PitchUnaligned);
    }
    let row_words: u64 = 4 * width as u64;
    let pitch_words: u64 = bytes_per_row as u64 / 4;
    if pitch_words < row_words {
        return Err(FramingError::PitchTooSmall);
    }
    proof {
        vstd::arithmetic::mul::lemma_mul_upper_bound(height as int, u32::MAX as int, pitch_words as int, u32::MAX as int);
    }
    if height as u64 * pitch_words > mapped.len() as u64 {
        return Err(FramingError::SizeMismatch);
    }
    let words = unpad_rows(mapped, row_words as usize, pitch_words as usize, height as usize);
    assert(height * row_words == width * height * 4) by (nonlinear_arith)
        requires
            row_words == 4 * width,
    ;
    Ok(words)
}

/// Lays the texel words of a `width` by `height` texture out for an upload
/// whose rows start every `bytes_per_row` bytes, the padding zeroed.
pub fn upload_texels(words: &Vec<u32>, width: u32, height: u32, bytes_per_row: u32) -> (r: Result<Vec<u32>, FramingError>)
    ensures
        match pitch_error(width, bytes_per_row) {
            Some(e) => r == Err::<Vec<u32>, FramingError>(e),
            None => if words@.len() == width * height * 4 && height * (bytes_per_row / 4)
                <= usize::MAX {
                r matches Ok(padded) && padded@ == padded_rows(
                    words@,
                    4 * width,
                    (bytes_per_row / 4) as int,
                    height as int,
                ) && padded@.len() == height * (bytes_per_row / 4)
            } else {
                r == Err::<Vec<u32>, FramingError>(FramingError::SizeMismatch)
            },
        },
{
    if bytes_per_row % 4 != 0 {
        return Err(FramingError::PitchUnaligned);
    }
    let row_words: u64 = 4 * width as u64;
    let pitch_words: u64 = bytes_per_row as u64 / 4;
    if pitch_words < row_words {
        return Err(FramingError::PitchTooSmall);
    }
    proof {
        vstd::arithmetic::mul::lemma_mul_upper_bound(height as int, u32::MAX as int, pitch_words as int, u32::MAX as int);
        vstd::arithmetic::mul::lemma_mul_upper_bound(height as int, u32::MAX as int, row_words as int, u32::MAX as int);
    }
    assert(height * row_words == width * height * 4) by (nonlinear_arith)
        requires
            row_words == 4 * width,
    ;
    if height as u64 * pitch_words > usize::MAX as u64 {
        return Err(FramingError::SizeMismatch);
    }
    if height as u64 * row_words != words.len() as u64 {
        return Err(FramingError::SizeMismatch);
    }
    let padded = pad_rows(words, row_words as usize, pitch_words as usize, height as usize);
    Ok(padded)
}

/// Texels laid out for an upload and read back at the same pitch come back
/// unchanged: what `upload_texels` produces, `readback_texels` turns back
/// into the words it was given.
pub proof fn lemma_upload_readback_round_trip(words: Seq<u32>, width: u32, height: u32, bytes_per_row: u32)
    requires
        pitch_error(width, bytes_per_row) is None,
        words.len() == width * height * 4,
    ensures
        ({
            let padded = padded_rows(words, 4 * width, (bytes_per_row / 4) as int, height as int);
            &&& padded.len() == height * (bytes_per_row / 4)
            &&& unpadded_rows(padded, 4 * width, (bytes_per_row / 4) as int, height as int) == words
        }),
{
    assert(words.len() == height * (4 * width)) by (nonlinear_arith)
        requires
            words.len() == width * height * 4,
    ;
    lemma_pad_unpad_round_trip(words, 4 * width, (bytes_per_row / 4) as int, height as int);
    crate::layout::lemma_padded_rows_len(words, 4 * width, (bytes_per_row / 4) as int, height as int);
}

} // verus!
