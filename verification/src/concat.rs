//! Bookkeeping for concatenating a multi-file pack's clips into one audio
//! file: which format the result takes, which clips need converting to it,
//! and where each clip lands, in samples.
//!
//! Decoding, converting and writing the samples, and turning sample
//! positions into milliseconds, are the caller's.

use vstd::prelude::*;

verus! {

/// Format of the result before any clip sets it.
pub const DEFAULT_SAMPLE_RATE: u32 = 44100;
/// Channel count of the result before any clip sets it.
pub const DEFAULT_CHANNELS: u16 = 2;

/// Where one clip lands in the concatenated samples.
#[derive(Debug)]
pub struct ClipTiming {
    /// The clip's file name.
    pub file: String,
    /// Index of its first sample (interleaved, all channels).
    pub offset: usize,
    /// How many samples it takes after conversion.
    pub len: usize,
}

/// The concatenation so far.
#[derive(Debug)]
pub struct Concatenation {
    pub sample_rate: u32,
    pub channels: u16,
    /// Samples appended so far.
    pub total: usize,
    /// The clips appended so far, in order.
    pub clips: Vec<ClipTiming>,
}

/// Total length of `clips`.
pub open spec fn sum_lens(clips: Seq<ClipTiming>) -> nat
    decreases clips.len(),
{
    if clips.len() == 0 {
        0
    } else {
        sum_lens(clips.drop_last()) + clips.last().len as nat
    }
}

impl Concatenation {
    /// Each clip starts where the ones before it end, and `total` is where
    /// the last one ends.
    pub open spec fn wf(&self) -> bool {
        &&& self.total == sum_lens(self.clips@)
        &&& forall|k: int|
            0 <= k < self.clips@.len() ==> #[trigger] self.clips@[k].offset == sum_lens(
                self.clips@.subrange(0, k),
            )
    }

    /// Nothing appended yet, in the default format.
    pub fn new() -> (c: Concatenation)
        ensures
            c.wf(),
            c.sample_rate == DEFAULT_SAMPLE_RATE,
            c.channels == DEFAULT_CHANNELS,
            c.total == 0,
            c.clips@.len() == 0,
    {
        Concatenation {
            sample_rate: DEFAULT_SAMPLE_RATE,
            channels: DEFAULT_CHANNELS,
            total: 0,
            clips: Vec::new(),
        }
    }

    /// A clip at position `index` in the file list decoded in the given
    /// format: the first file of the list sets the result's format (a
    /// missing or unreadable first file leaves the default); returns whether
    /// the clip must be converted to the result's format.
    pub fn adopt_format(&mut self, index: usize, file_channels: u16, file_rate: u32) -> (convert:
        bool)
        ensures
            index == 0 ==> final(self).sample_rate == file_rate && final(self).channels
                == file_channels,
            index != 0 ==> final(self).sample_rate == old(self).sample_rate && final(self).channels
                == old(self).channels,
            final(self).total == old(self).total,
            final(self).clips@ == old(self).clips@,
            convert == (file_rate != final(self).sample_rate || file_channels
                != final(self).channels),
    {
        if index == 0 {
            self.sample_rate = file_rate;
            self.channels = file_channels;
        }
        file_rate != self.sample_rate || file_channels != self.channels
    }

    /// Appends a clip of `len` samples (after conversion) at the end.
    pub fn append(&mut self, file: String, len: usize)
        requires
            old(self).wf(),
            old(self).total + len <= usize::MAX,
        ensures
            final(self).wf(),
            final(self).total == old(self).total + len,
            final(self).clips@.len() == old(self).clips@.len() + 1,
            final(self).clips@.drop_last() == old(self).clips@,
            final(self).clips@.last().file == file,
            final(self).clips@.last().offset == old(self).total,
            final(self).clips@.last().len == len,
            final(self).sample_rate == old(self).sample_rate,
            final(self).channels == old(self).channels,
    {
        let ghost before = self.clips@;
        let offset = self.total;
        self.clips.push(ClipTiming { file, offset, len });
        self.total = self.total + len;
        assert(self.clips@.drop_last() =~= before);
        assert forall|k: int| 0 <= k < self.clips@.len() implies #[trigger] self.clips@[k].offset
            == sum_lens(self.clips@.subrange(0, k)) by {
            if k < before.len() {
                assert(self.clips@.subrange(0, k) =~= before.subrange(0, k));
            } else {
                assert(self.clips@.subrange(0, k) =~= before);
            }
        }
    }

    /// The outcome once every file was tried: an error when no samples at
    /// all were loaded.
    pub fn finish(&self) -> (r: Result<(), String>)
        ensures
            r is Ok <==> self.total > 0,
            r matches Err(e) ==> e@ == "No audio samples were loaded"@,
    {
        if self.total == 0 {
            Err(String::from_str("No audio samples were loaded"))
        } else {
            Ok(())
        }
    }
}

proof fn lemma_sum_lens_prefix(clips: Seq<ClipTiming>, k: int)
    requires
        0 <= k <= clips.len(),
    ensures
        sum_lens(clips.subrange(0, k)) <= sum_lens(clips),
    decreases clips.len() - k,
{
    if k < clips.len() {
        lemma_sum_lens_prefix(clips, k + 1);
        assert(clips.subrange(0, k + 1).drop_last() =~= clips.subrange(0, k));
    } else {
        assert(clips.subrange(0, k) =~= clips);
    }
}

/// Clips never overlap: each one ends no later than any later one starts,
/// and every clip lies within the concatenation.
pub proof fn lemma_clips_are_back_to_back(c: Concatenation, k: int, j: int)
    requires
        c.wf(),
        0 <= k < j < c.clips@.len(),
    ensures
        c.clips@[k].offset + c.clips@[k].len <= c.clips@[j].offset,
        c.clips@[j].offset + c.clips@[j].len <= c.total,
{
    let clips = c.clips@;
    assert(clips.subrange(0, k + 1).drop_last() =~= clips.subrange(0, k));
    lemma_sum_lens_prefix(clips.subrange(0, j), k + 1);
    assert(clips.subrange(0, j).subrange(0, k + 1) =~= clips.subrange(0, k + 1));
    assert(clips.subrange(0, j + 1).drop_last() =~= clips.subrange(0, j));
    lemma_sum_lens_prefix(clips, j + 1);
}

} // verus!
