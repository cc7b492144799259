//! The registry of streams that an application controls together: streams are
//! built against a device's supported formats, then played, paused and
//! destroyed by identifier. The registry holds each stream's state only; it
//! owns no handler and stops no backend. A driver that routes native calls
//! asks `is_delivering` before running a stream's handler, and the backend
//! glue deactivates the client itself. A destroyed stream's slot is never
//! reused, so under such a driver no later operation makes its callbacks run
//! again.
use crate::device::Device;
use crate::error::CreationError;
use crate::format::{
    format_valid, is_format_supported, range_admits, ranges_admit, ranges_valid, Format,
    SupportedFormat,
};
use vstd::prelude::*;

verus! {

/// Identifier of a stream within an `EventLoop`.
#[derive(Debug, Clone, Copy, PartialEq, Eq, Structural, Hash)]
pub struct StreamId(usize);

impl StreamId {
    /// The identifier as a number.
    pub fn index(&self) -> (r: usize)
        ensures
            r == self.slot(),
    {
        self.0
    }

    /// The slot of the stream in its loop.
    pub closed spec fn slot(&self) -> nat {
        self.0 as nat
    }
}

/// Which way the samples of a stream flow.
#[derive(Debug, Clone, Copy, PartialEq, Eq, Structural)]
pub enum Direction {
    Input,
    Output,
}

/// What the loop knows of a live stream.
#[derive(Debug, Clone, Copy, PartialEq, Eq, Structural)]
pub struct StreamState {
    pub direction: Direction,
    pub format: Format,
    pub playing: bool,
}

/// The slots after setting the play flag of slot `id`, if it holds a stream.
pub open spec fn with_playing(
    slots: Seq<Option<StreamState>>,
    id: nat,
    playing: bool,
) -> Seq<Option<StreamState>> {
    if id < slots.len() && slots[id as int] is Some {
        slots.update(id as int, Some(StreamState { playing, ..slots[id as int].unwrap() }))
    } else {
        slots
    }
}

/// Whether the callbacks of stream `id` are to run: it exists and is playing.
pub open spec fn delivers(slots: Seq<Option<StreamState>>, id: nat) -> bool {
    id < slots.len() && slots[id as int] is Some && slots[id as int].unwrap().playing
}

/// Streams managed together. Slot `i` holds the stream with identifier `i`
/// until it is destroyed.
pub struct EventLoop {
    streams: Vec<Option<StreamState>>,
}

impl EventLoop {
    pub closed spec fn slots(&self) -> Seq<Option<StreamState>> {
        self.streams@
    }

    /// An event loop with no stream.
    pub fn new() -> (r: EventLoop)
        ensures
            r.slots() == Seq::<Option<StreamState>>::empty(),
    {
        EventLoop { streams: Vec::new() }
    }

    fn build(&mut self, direction: Direction, format: &Format) -> (r: StreamId)
        ensures
            r.slot() == old(self).slots().len(),
            final(self).slots() == old(self).slots().push(
                Some(StreamState { direction, format: *format, playing: false }),
            ),
    {
        let id = StreamId(self.streams.len());
        self.streams.push(Some(StreamState { direction, format: *format, playing: false }));
        id
    }

    /// Creates a paused input stream on `device` with `format`. Fails, and
    /// creates nothing, if the device is gone or none of its input ranges
    /// admits the format.
    pub fn build_input_stream(&mut self, device: &Device, format: &Format) -> (r: Result<
        StreamId,
        CreationError,
    >)
        ensures
            !device.is_available() ==> r == Err::<StreamId, _>(CreationError::DeviceNotAvailable),
            device.is_available() && !ranges_admit(device.inputs(), *format) ==> r == Err::<
                StreamId,
                _,
            >(CreationError::FormatNotSupported),
            r is Err ==> final(self).slots() == old(self).slots(),
            r is Ok ==> format_valid(*format),
            device.is_available() && ranges_admit(device.inputs(), *format) ==> (r matches Ok(id)
                && id.slot() == old(self).slots().len() && final(self).slots() == old(
                self,
            ).slots().push(
                Some(StreamState { direction: Direction::Input, format: *format, playing: false }),
            )),
    {
        match device.supported_input_formats() {
            Err(_) => Err(CreationError::DeviceNotAvailable),
            Ok(_) => {
                let ranges = device.input_formats_ref();
                if !is_format_supported(ranges, format) {
                    Err(CreationError::FormatNotSupported)
                } else {
                    proof {
                        lemma_admitted_format_valid(ranges@, *format);
                    }
                    Ok(self.build(Direction::Input, format))
                }
            },
        }
    }

    /// Creates a paused output stream on `device` with `format`. Fails, and
    /// creates nothing, if the device is gone or none of its output ranges
    /// admits the format.
    pub fn build_output_stream(&mut self, device: &Device, format: &Format) -> (r: Result<
        StreamId,
        CreationError,
    >)
        ensures
            !device.is_available() ==> r == Err::<StreamId, _>(CreationError::DeviceNotAvailable),
            device.is_available() && !ranges_admit(device.outputs(), *format) ==> r == Err::<
                StreamId,
                _,
            >(CreationError::FormatNotSupported),
            r is Err ==> final(self).slots() == old(self).slots(),
            r is Ok ==> format_valid(*format),
            device.is_available() && ranges_admit(device.outputs(), *format) ==> (r matches Ok(id)
                && id.slot() == old(self).slots().len() && final(self).slots() == old(
                self,
            ).slots().push(
                Some(StreamState { direction: Direction::Output, format: *format, playing: false }),
            )),
    {
        match device.supported_output_formats() {
            Err(_) => Err(CreationError::DeviceNotAvailable),
            Ok(_) => {
                let ranges = device.output_formats_ref();
                if !is_format_supported(ranges, format) {
                    Err(CreationError::FormatNotSupported)
                } else {
                    proof {
                        lemma_admitted_format_valid(ranges@, *format);
                    }
                    Ok(self.build(Direction::Output, format))
                }
            },
        }
    }

    fn set_playing(&mut self, stream: StreamId, playing: bool)
        ensures
            final(self).slots() == with_playing(old(self).slots(), stream.slot(), playing),
    {
        if stream.0 < self.streams.len() {
            match self.streams[stream.0] {
                Some(s) => {
                    self.streams.set(stream.0, Some(StreamState { playing, ..s }));
                },
                None => {},
            }
        }
    }

    /// Starts the stream; no effect if it is playing already. An identifier
    /// that names no live stream is ignored.
    pub fn play_stream(&mut self, stream: StreamId)
        ensures
            final(self).slots() == with_playing(old(self).slots(), stream.slot(), true),
    {
        self.set_playing(stream, true)
    }

    /// Pauses the stream; a later `play_stream` resumes where it stopped. An
    /// identifier that names no live stream is ignored.
    pub fn pause_stream(&mut self, stream: StreamId)
        ensures
            final(self).slots() == with_playing(old(self).slots(), stream.slot(), false),
    {
        self.set_playing(stream, false)
    }

    /// Destroys the stream's record: its slot is emptied for good, so
    /// `is_delivering` answers false for it from now on. An identifier that
    /// names no stream is ignored.
    pub fn destroy_stream(&mut self, stream_id: StreamId)
        ensures
            stream_id.slot() < old(self).slots().len() ==> final(self).slots() == old(
                self,
            ).slots().update(stream_id.slot() as int, None),
            stream_id.slot() >= old(self).slots().len() ==> final(self).slots() == old(self).slots(),
    {
        if stream_id.0 < self.streams.len() {
            self.streams.set(stream_id.0, None);
        }
    }

    /// Whether the callbacks of the stream are to run now.
    pub fn is_delivering(&self, stream: StreamId) -> (r: bool)
        ensures
            r == delivers(self.slots(), stream.slot()),
    {
        if stream.0 < self.streams.len() {
            match self.streams[stream.0] {
                Some(s) => s.playing,
                None => false,
            }
        } else {
            false
        }
    }

    /// What the loop knows of the stream, if it is live.
    pub fn stream_state(&self, stream: StreamId) -> (r: Option<StreamState>)
        ensures
            stream.slot() < self.slots().len() ==> r == self.slots()[stream.slot() as int],
            stream.slot() >= self.slots().len() ==> r is None,
    {
        if stream.0 < self.streams.len() {
            self.streams[stream.0]
        } else {
            None
        }
    }
}

/// A format that a list of well-formed ranges admits is well formed.
pub proof fn lemma_admitted_format_valid(ranges: Seq<SupportedFormat>, format: Format)
    requires
        ranges_valid(ranges),
        ranges_admit(ranges, format),
    ensures
        format_valid(format),
{
    let i = choose|i: int| 0 <= i < ranges.len() && range_admits(#[trigger] ranges[i], format);
    assert(range_admits(ranges[i], format));
}

/// Once a stream is destroyed no later play, pause or destroy of any stream,
/// nor the building of a new one, makes its callbacks run again.
pub proof fn lemma_destroyed_stays_silent(
    slots: Seq<Option<StreamState>>,
    id: nat,
    other: nat,
    playing: bool,
    built: StreamState,
)
    requires
        id < slots.len(),
        slots[id as int] is None,
    ensures
        !delivers(slots, id),
        with_playing(slots, other, playing)[id as int] is None,
        slots.push(Some(built))[id as int] is None,
        other < slots.len() ==> slots.update(other as int, None)[id as int] is None,
{
}

} // verus!
