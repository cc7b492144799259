use vstd::prelude::*;

verus! {

/// Number of channels.
pub type ChannelCount = u16;

/// The element type of the samples of a stream.
#[derive(Debug, Clone, Copy, PartialEq, Eq, Structural)]
pub enum SampleFormat {
    /// Unsigned 16-bit samples.
    U16,
    /// Signed 16-bit samples.
    I16,
    /// 32-bit floating point samples.
    F32,
}

/// Size in bytes of one sample of the given format.
pub open spec fn sample_size_of(f: SampleFormat) -> nat {
    match f {
        SampleFormat::U16 => 2,
        SampleFormat::I16 => 2,
        SampleFormat::F32 => 4,
    }
}

impl SampleFormat {
    /// Returns the size in bytes of one sample of this format.
    pub fn sample_size(&self) -> (r: usize)
        ensures
            r == sample_size_of(*self),
    {
        match self {
            SampleFormat::U16 => 2,
            SampleFormat::I16 => 2,
            SampleFormat::F32 => 4,
        }
    }
}


/// The number of samples processed per second for a single channel of audio.
#[derive(Debug, Clone, Copy, PartialEq, Eq, Structural, PartialOrd, Ord)]
pub struct SampleRate(pub u32);

/// The format of an input or output audio stream.
#[derive(Debug, Clone, Copy, PartialEq, Eq, Structural)]
pub struct Format {
    pub channels: ChannelCount,
    pub sample_rate: SampleRate,
    pub data_type: SampleFormat,
}

/// Describes a range of supported stream formats.
#[derive(Debug, Clone, Copy, PartialEq, Eq, Structural)]
pub struct SupportedFormat {
    pub channels: ChannelCount,
    /// Minimum value for the sample rate of the supported formats.
    pub min_sample_rate: SampleRate,
    /// Maximum value for the sample rate of the supported formats.
    pub max_sample_rate: SampleRate,
    /// Type of data expected by the device.
    pub data_type: SampleFormat,
}

/// A range is well formed when it has at least one channel and a positive
/// minimum rate no greater than its maximum.
pub open spec fn range_valid(range: SupportedFormat) -> bool {
    &&& range.channels >= 1
    &&& 0 < range.min_sample_rate.0
    &&& range.min_sample_rate.0 <= range.max_sample_rate.0
}

/// Every range of the list is well formed.
pub open spec fn ranges_valid(ranges: Seq<SupportedFormat>) -> bool {
    forall|i: int| 0 <= i < ranges.len() ==> range_valid(#[trigger] ranges[i])
}

/// A format is well formed when it has at least one channel and a positive rate.
pub open spec fn format_valid(format: Format) -> bool {
    format.channels >= 1 && format.sample_rate.0 > 0
}

/// A range admits a format when channel count and sample format are equal and
/// the rate lies within `[min, max]`, bounds included.
pub open spec fn range_admits(range: SupportedFormat, format: Format) -> bool {
    &&& range.channels == format.channels
    &&& range.data_type == format.data_type
    &&& range.min_sample_rate.0 <= format.sample_rate.0
    &&& format.sample_rate.0 <= range.max_sample_rate.0
}

/// Some range of the list admits the format.
pub open spec fn ranges_admit(ranges: Seq<SupportedFormat>, format: Format) -> bool {
    exists|i: int| 0 <= i < ranges.len() && range_admits(#[trigger] ranges[i], format)
}

impl SupportedFormat {
    /// Turns this range into a `Format` at its maximum sample rate.
    pub fn with_max_sample_rate(self) -> (r: Format)
        ensures
            r.channels == self.channels,
            r.sample_rate == self.max_sample_rate,
            r.data_type == self.data_type,
    {
        Format {
            channels: self.channels,
            sample_rate: self.max_sample_rate,
            data_type: self.data_type,
        }
    }

    /// Whether this range admits `format`.
    pub fn admits(&self, format: &Format) -> (r: bool)
        ensures
            r == range_admits(*self, *format),
    {
        self.channels == format.channels && self.data_type == format.data_type
            && self.min_sample_rate.0 <= format.sample_rate.0
            && format.sample_rate.0 <= self.max_sample_rate.0
    }
}

/// Whether any range of `ranges` admits `format`.
pub fn is_format_supported(ranges: &Vec<SupportedFormat>, format: &Format) -> (r: bool)
    ensures
        r == ranges_admit(ranges@, *format),
{
    let mut i: usize = 0;
    while i < ranges.len()
        invariant
            i <= ranges@.len(),
            forall|j: int| 0 <= j < i ==> !range_admits(#[trigger] ranges@[j], *format),
        decreases ranges@.len() - i,
    {
        if ranges[i].admits(format) {
            return true;
        }
        i = i + 1;
    }
    false
}

/// The single-rate range that admits exactly `format`.
pub open spec fn range_of(format: Format) -> SupportedFormat {
    SupportedFormat {
        channels: format.channels,
        min_sample_rate: format.sample_rate,
        max_sample_rate: format.sample_rate,
        data_type: format.data_type,
    }
}

impl From<Format> for SupportedFormat {
    fn from(format: Format) -> (r: SupportedFormat)
        ensures
            r == range_of(format),
    {
        SupportedFormat {
            channels: format.channels,
            min_sample_rate: format.sample_rate,
            max_sample_rate: format.sample_rate,
            data_type: format.data_type,
        }
    }
}

impl vstd::std_specs::convert::FromSpecImpl<Format> for SupportedFormat {
    open spec fn obeys_from_spec() -> bool {
        true
    }

    open spec fn from_spec(format: Format) -> SupportedFormat {
        range_of(format)
    }
}

} // verus!
