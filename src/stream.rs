//! Stream lifecycle: the control handle with its shared play/pause flag, the
//! realtime handlers that run the bridge only while the flag is set, and the
//! wiring of a stream's ports to the system's ports.
use crate::bridge::{
    input_step, output_step, InputBridge, InputCallback, OutputBridge, OutputCallback,
};
use crate::format::ChannelCount;
use std::sync::atomic::{AtomicBool, Ordering};
use std::sync::Arc;
use vstd::prelude::*;

verus! {

/// The realtime side of an output stream: the bridge, the user callback and
/// the play/pause flag shared with the stream's control handle.
pub struct OutputHandler<T, F> {
    bridge: OutputBridge<T>,
    callback: F,
    playing: Arc<AtomicBool>,
}

impl<T: Copy, F: OutputCallback<T>> OutputHandler<T, F> {
    /// The handler's bridge.
    pub closed spec fn bridge(&self) -> OutputBridge<T> {
        self.bridge
    }

    /// The user callback as it stands now.
    pub closed spec fn user_callback(&self) -> F {
        self.callback
    }

    pub open spec fn wf(&self) -> bool {
        self.bridge().wf()
    }

    /// The user callback, for inspection between native calls.
    pub fn callback(&self) -> (r: &F)
        ensures
            *r == self.user_callback(),
    {
        &self.callback
    }

    /// The bridge's cursor: the next frame to send from the staging buffer.
    pub fn position(&self) -> (r: usize)
        ensures
            r == self.bridge().cursor(),
    {
        self.bridge.position()
    }

    /// One native call, for a known state of the flag: while playing the
    /// bridge answers the call; while paused nothing changes, neither the
    /// bridge (its cursor included) nor the native buffer, and the user
    /// callback is not called.
    pub fn process_when(&mut self, playing: bool, frames: usize, out: &mut Vec<T>)
        requires
            old(self).wf(),
            playing ==> old(out)@.len() == old(self).bridge().channels() * frames,
        ensures
            final(self).wf(),
            playing ==> output_step(
                old(self).bridge(),
                final(self).bridge(),
                frames as nat,
                old(out)@,
                final(out)@,
                old(self).user_callback().filled(),
                final(self).user_callback().filled(),
            ),
            !playing ==> final(self).bridge() == old(self).bridge() && final(out)@ == old(out)@
                && final(self).user_callback() == old(self).user_callback(),
    {
        if playing {
            self.bridge.process(frames, out, &mut self.callback);
        }
    }

    /// One native call: reads the shared flag once, then acts as
    /// `process_when` with the value read, which it returns.
    pub fn process(&mut self, frames: usize, out: &mut Vec<T>) -> (ran: bool)
        requires
            old(self).wf(),
            old(out)@.len() == old(self).bridge().channels() * frames,
        ensures
            final(self).wf(),
            ran ==> output_step(
                old(self).bridge(),
                final(self).bridge(),
                frames as nat,
                old(out)@,
                final(out)@,
                old(self).user_callback().filled(),
                final(self).user_callback().filled(),
            ),
            !ran ==> final(self).bridge() == old(self).bridge() && final(out)@ == old(out)@
                && final(self).user_callback() == old(self).user_callback(),
    {
        let playing = self.playing.load(Ordering::SeqCst);
        self.process_when(playing, frames, out);
        playing
    }
}

/// The realtime side of an input stream.
pub struct InputHandler<T, F> {
    bridge: InputBridge<T>,
    callback: F,
    playing: Arc<AtomicBool>,
}

impl<T: Copy, F: InputCallback<T>> InputHandler<T, F> {
    /// The handler's bridge.
    pub closed spec fn bridge(&self) -> InputBridge<T> {
        self.bridge
    }

    /// The user callback as it stands now.
    pub closed spec fn user_callback(&self) -> F {
        self.callback
    }

    pub open spec fn wf(&self) -> bool {
        self.bridge().wf()
    }

    /// The user callback, for inspection between native calls.
    pub fn callback(&self) -> (r: &F)
        ensures
            *r == self.user_callback(),
    {
        &self.callback
    }

    /// Frames stored in the staging buffer and not yet handed on.
    pub fn position(&self) -> (r: usize)
        ensures
            r == self.bridge().cursor(),
    {
        self.bridge.position()
    }

    /// One native call, for a known state of the flag: while playing the
    /// bridge takes the frames; while paused nothing changes.
    pub fn process_when(&mut self, playing: bool, frames: usize, input: &Vec<T>)
        requires
            old(self).wf(),
            playing ==> input@.len() == old(self).bridge().channels() * frames,
        ensures
            final(self).wf(),
            playing ==> input_step(
                old(self).bridge(),
                final(self).bridge(),
                frames as nat,
                input@,
                old(self).user_callback().consumed(),
                final(self).user_callback().consumed(),
            ),
            !playing ==> final(self).bridge() == old(self).bridge() && final(self).user_callback()
                == old(self).user_callback(),
    {
        if playing {
            self.bridge.process(frames, input, &mut self.callback);
        }
    }

    /// One native call: reads the shared flag once, then acts as
    /// `process_when` with the value read, which it returns.
    pub fn process(&mut self, frames: usize, input: &Vec<T>) -> (ran: bool)
        requires
            old(self).wf(),
            input@.len() == old(self).bridge().channels() * frames,
        ensures
            final(self).wf(),
            ran ==> input_step(
                old(self).bridge(),
                final(self).bridge(),
                frames as nat,
                input@,
                old(self).user_callback().consumed(),
                final(self).user_callback().consumed(),
            ),
            !ran ==> final(self).bridge() == old(self).bridge() && final(self).user_callback()
                == old(self).user_callback(),
    {
        let playing = self.playing.load(Ordering::SeqCst);
        self.process_when(playing, frames, input);
        playing
    }
}

/// The control side of a stream: its ports' names, in interleave order, and
/// the play/pause flag its realtime handler reads on every native call.
pub struct Stream {
    playing: Arc<AtomicBool>,
    input_port_names: Vec<String>,
    output_port_names: Vec<String>,
}

impl Stream {
    pub closed spec fn input_ports(&self) -> Seq<Seq<char>> {
        self.input_port_names@.map_values(|s: String| s@)
    }

    pub closed spec fn output_ports(&self) -> Seq<Seq<char>> {
        self.output_port_names@.map_values(|s: String| s@)
    }

    /// An input stream of `channels` channels over the registered ports
    /// `port_names`, with a bridge of `buffer_size` frames per user buffer.
    /// The stream starts playing.
    pub fn new_input<T: Copy, F: InputCallback<T>>(
        channels: ChannelCount,
        port_names: Vec<String>,
        buffer_size: usize,
        silence: T,
        callback: F,
    ) -> (r: (Stream, InputHandler<T, F>))
        requires
            channels >= 1,
            buffer_size >= 1,
            channels * buffer_size <= usize::MAX,
        ensures
            r.1.wf(),
            r.1.bridge().channels() == channels,
            r.1.bridge().period() == buffer_size,
            r.1.bridge().cursor() == 0,
            r.1.bridge().captured() == Seq::<T>::empty(),
            r.1.bridge().invocations() == 0,
            r.1.user_callback() == callback,
            r.0.input_ports() == port_names@.map_values(|s: String| s@),
            r.0.output_ports() == Seq::<Seq<char>>::empty(),
    {
        let playing = Arc::new(AtomicBool::new(true));
        let handler = InputHandler {
            bridge: InputBridge::new(channels as usize, buffer_size, silence),
            callback,
            playing: Arc::clone(&playing),
        };
        let stream = Stream { playing, input_port_names: port_names, output_port_names: Vec::new() };
        proof {
            assert(stream.output_ports() =~= Seq::<Seq<char>>::empty());
        }
        (stream, handler)
    }

    /// An output stream of `channels` channels over the registered ports
    /// `port_names`, with a bridge of `buffer_size` frames per user buffer.
    /// The stream starts playing.
    pub fn new_output<T: Copy, F: OutputCallback<T>>(
        channels: ChannelCount,
        port_names: Vec<String>,
        buffer_size: usize,
        silence: T,
        callback: F,
    ) -> (r: (Stream, OutputHandler<T, F>))
        requires
            channels >= 1,
            buffer_size >= 1,
            channels * buffer_size <= usize::MAX,
        ensures
            r.1.wf(),
            r.1.bridge().channels() == channels,
            r.1.bridge().period() == buffer_size,
            r.1.bridge().cursor() == buffer_size,
            r.1.bridge().produced() == Seq::<T>::empty(),
            r.1.bridge().frames_out() == 0,
            r.1.bridge().invocations() == 0,
            r.1.user_callback() == callback,
            r.0.output_ports() == port_names@.map_values(|s: String| s@),
            r.0.input_ports() == Seq::<Seq<char>>::empty(),
    {
        let playing = Arc::new(AtomicBool::new(true));
        let handler = OutputHandler {
            bridge: OutputBridge::new(channels as usize, buffer_size, silence),
            callback,
            playing: Arc::clone(&playing),
        };
        let stream = Stream { playing, input_port_names: Vec::new(), output_port_names: port_names };
        proof {
            assert(stream.input_ports() =~= Seq::<Seq<char>>::empty());
        }
        (stream, handler)
    }

    /// Sets the shared flag: the realtime handler runs the bridge again from
    /// the next native call that reads it.
    pub fn play(&self) {
        self.playing.store(true, Ordering::SeqCst);
    }

    /// Clears the shared flag: from the next native call that reads it, the
    /// realtime handler leaves everything as it is.
    pub fn pause(&self) {
        self.playing.store(false, Ordering::SeqCst);
    }

    /// Names of the input ports, in interleave order.
    pub fn input_port_names(&self) -> (r: &Vec<String>)
        ensures
            r@.map_values(|s: String| s@) == self.input_ports(),
    {
        &self.input_port_names
    }

    /// Names of the output ports, in interleave order.
    pub fn output_port_names(&self) -> (r: &Vec<String>)
        ensures
            r@.map_values(|s: String| s@) == self.output_ports(),
    {
        &self.output_port_names
    }
}

} // verus!
