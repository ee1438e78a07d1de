//! Integer decisions around decoding audio: the format assumed when a
//! file's header leaves it out, how much to pre-allocate, which files are
//! too large to decode, and the sample range a timing segment covers.
//!
//! The decoding itself, and turning milliseconds into sample positions,
//! are the caller's.

use vstd::prelude::*;
use crate::text::{chars_of, decimal, push_decimal, push_str, string_of};

verus! {

/// Sample rate assumed when a header has none.
pub const FALLBACK_SAMPLE_RATE: u32 = 44100;
/// Channel count assumed when a header has none, or says zero.
pub const FALLBACK_CHANNELS: u16 = 2;
/// Cap on the samples pre-allocated from a header's frame count: about 15
/// minutes of 48 kHz stereo. The header is untrusted, so an absurd claim
/// must not drive an equally absurd allocation.
pub const MAX_SAMPLES: usize = 86_400_000;
/// Largest audio file decoded: 100 MiB.
pub const MAX_AUDIO_FILE_BYTES: u64 = 104_857_600;

/// The `(sample rate, channels)` a decoded stream is taken to have, from
/// what its header says (channel counts above `u16::MAX` wrap, as the cast
/// does).
pub open spec fn spec_stream_format(rate: Option<u32>, channel_count: Option<usize>) -> (u32, u16) {
    (
        match rate {
            Some(r) => r,
            None => FALLBACK_SAMPLE_RATE,
        },
        match channel_count {
            Some(n) => if n == 0 {
                FALLBACK_CHANNELS
            } else {
                n as u16
            },
            None => FALLBACK_CHANNELS,
        },
    )
}

/// See [`spec_stream_format`].
pub fn stream_format(rate: Option<u32>, channel_count: Option<usize>) -> (r: (u32, u16))
    ensures
        r == spec_stream_format(rate, channel_count),
{
    let r = match rate {
        Some(r) => r,
        None => FALLBACK_SAMPLE_RATE,
    };
    let c = match channel_count {
        Some(n) => if n == 0 {
            FALLBACK_CHANNELS
        } else {
            #[verifier::truncate]
            (n as u16)
        },
        None => FALLBACK_CHANNELS,
    };
    (r, c)
}

/// Samples to reserve before decoding: the header's frame count times the
/// channels (saturating), capped at [`MAX_SAMPLES`]; nothing when the
/// header has no frame count.
pub open spec fn spec_preallocation(frames: Option<usize>, channels: u16) -> nat {
    match frames {
        Some(f) => {
            let claimed = f * channels;
            if claimed > MAX_SAMPLES {
                MAX_SAMPLES as nat
            } else {
                claimed as nat
            }
        },
        None => 0,
    }
}

/// See [`spec_preallocation`].
pub fn preallocation(frames: Option<usize>, channels: u16) -> (r: usize)
    ensures
        r as nat == spec_preallocation(frames, channels),
{
    match frames {
        Some(f) => {
            let claimed = match f.checked_mul(channels as usize) {
                Some(c) => c,
                None => usize::MAX,
            };
            if claimed > MAX_SAMPLES {
                MAX_SAMPLES
            } else {
                claimed
            }
        },
        None => 0,
    }
}

/// Whether an audio file of `len` bytes is decoded: empty and oversized
/// files are refused, with the message naming the file.
pub open spec fn spec_audio_file_size_check(len: u64, path: Seq<char>) -> Result<(), Seq<char>> {
    if len == 0 {
        Err("Audio file is empty: "@ + path)
    } else if len > MAX_AUDIO_FILE_BYTES {
        Err(
            "Audio file too large ("@ + decimal(len as nat) + " bytes, cap "@ + decimal(
                MAX_AUDIO_FILE_BYTES as nat,
            ) + " bytes): "@ + path,
        )
    } else {
        Ok(())
    }
}

/// See [`spec_audio_file_size_check`].
pub fn audio_file_size_check(len: u64, path: &str) -> (r: Result<(), String>)
    ensures
        match (r, spec_audio_file_size_check(len, path@)) {
            (Ok(_), Ok(_)) => true,
            (Err(a), Err(b)) => a@ == b,
            _ => false,
        },
{
    if len == 0 {
        let mut out = chars_of("Audio file is empty: ");
        push_str(&mut out, path);
        return Err(string_of(out));
    }
    if len > MAX_AUDIO_FILE_BYTES {
        let mut out = chars_of("Audio file too large (");
        push_decimal(&mut out, len);
        push_str(&mut out, " bytes, cap ");
        push_decimal(&mut out, MAX_AUDIO_FILE_BYTES);
        push_str(&mut out, " bytes): ");
        push_str(&mut out, path);
        return Err(string_of(out));
    }
    Ok(())
}

/// The sample range `[start, end)` a timing segment covers in a buffer of
/// `len` samples, given the sample positions its start and end times map
/// to: the end is clipped to the buffer, and a segment that starts past the
/// buffer or is empty after clipping covers nothing.
pub open spec fn spec_segment_bounds(start: usize, end: usize, len: usize) -> Option<(usize, usize)> {
    let end = if end < len {
        end
    } else {
        len
    };
    if start >= len || end <= start {
        None
    } else {
        Some((start, end))
    }
}

/// See [`spec_segment_bounds`].
pub fn segment_bounds(start: usize, end: usize, len: usize) -> (r: Option<(usize, usize)>)
    ensures
        r == spec_segment_bounds(start, end, len),
        r matches Some((s, e)) ==> s < e <= len,
{
    let end = if end < len {
        end
    } else {
        len
    };
    if start >= len || end <= start {
        None
    } else {
        Some((start, end))
    }
}

} // verus!
