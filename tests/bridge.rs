use cpal::{Buffer, InputBridge, InputCallback, OutputBridge, OutputCallback, Stream};

/// Fills each buffer with the next integers, counting its calls.
struct Counter {
    next: f32,
    calls: usize,
}

impl OutputCallback<f32> for Counter {
    fn fill(&mut self, buffer: &mut Buffer<f32>) {
        for i in 0..buffer.len() {
            buffer.set(i, self.next);
            self.next += 1.0;
        }
        self.calls += 1;
    }
}

fn counter() -> Counter {
    Counter { next: 0.0, calls: 0 }
}

/// Leaves every buffer as it is.
struct Idle {
    calls: usize,
}

impl OutputCallback<i32> for Idle {
    fn fill(&mut self, _buffer: &mut Buffer<i32>) {
        self.calls += 1;
    }
}

/// Keeps every buffer it is handed.
struct Recorder {
    buffers: Vec<Vec<i32>>,
}

impl InputCallback<i32> for Recorder {
    fn consume(&mut self, samples: &[i32]) {
        self.buffers.push(samples.to_vec());
    }
}

/// Runs output calls of the given sizes and returns the frames sent,
/// interleaved, with the number of callback invocations.
fn run_output(channels: usize, period: usize, requests: &[usize]) -> (Vec<f32>, usize) {
    let mut bridge = OutputBridge::new(channels, period, 0.0f32);
    let mut cb = counter();
    let mut sent = Vec::new();
    for &frames in requests {
        let mut out = vec![-1.0f32; channels * frames];
        bridge.process(frames, &mut out, &mut cb);
        for f in 0..frames {
            for c in 0..channels {
                sent.push(out[c * frames + f]);
            }
        }
    }
    (sent, cb.calls)
}

#[test]
fn interleave_round_trip_for_each_channel_count() {
    for &channels in &[1usize, 2, 8] {
        let period = 4;
        let (sent, calls) = run_output(channels, period, &[3, 5, 4]);
        assert_eq!(calls, 3);
        let expected: Vec<f32> = (0..(3 * period * channels)).map(|x| x as f32).collect();
        assert_eq!(sent, expected);
    }
}

#[test]
fn aligned_requests_call_once_per_period() {
    let (sent, calls) = run_output(2, 8, &[8, 8, 8, 8]);
    assert_eq!(calls, 4);
    assert_eq!(sent.len(), 64);
    assert_eq!(sent[63], 63.0);
}

#[test]
fn carryover_matches_aligned_chunks() {
    let (split, split_calls) = run_output(2, 32, &[10, 10, 10, 2]);
    let (whole, whole_calls) = run_output(2, 32, &[32]);
    assert_eq!(split, whole);
    assert_eq!(split_calls, 1);
    assert_eq!(whole_calls, 1);
}

#[test]
fn carryover_across_period_boundaries() {
    let (split, split_calls) = run_output(3, 5, &[7, 1, 9, 3]);
    let (whole, whole_calls) = run_output(3, 5, &[5, 5, 5, 5]);
    assert_eq!(split, whole);
    assert_eq!(split_calls, 4);
    assert_eq!(whole_calls, 4);
}

#[test]
fn planar_layout_of_one_call() {
    let mut bridge = OutputBridge::new(2, 4, 0.0f32);
    let mut cb = counter();
    let mut out = vec![0.0f32; 6];
    bridge.process(3, &mut out, &mut cb);
    // channel 0 then channel 1, three frames each
    assert_eq!(out, vec![0.0, 2.0, 4.0, 1.0, 3.0, 5.0]);
    assert_eq!(bridge.position(), 3);
}

#[test]
fn fresh_bridge_calls_back_on_first_frame() {
    let mut bridge = OutputBridge::new(1, 4, 0.0f32);
    assert_eq!(bridge.position(), 4);
    assert_eq!(bridge.channel_count(), 1);
    assert_eq!(bridge.period_frames(), 4);
    let mut cb = counter();
    let mut out = vec![9.0f32; 1];
    bridge.process(1, &mut out, &mut cb);
    assert_eq!(cb.calls, 1);
    assert_eq!(out, vec![0.0]);
    assert_eq!(bridge.position(), 1);
}

#[test]
fn zero_frames_change_nothing() {
    let mut bridge = OutputBridge::new(2, 4, 0.0f32);
    let mut cb = counter();
    let mut out: Vec<f32> = Vec::new();
    bridge.process(0, &mut out, &mut cb);
    assert_eq!(cb.calls, 0);
    assert_eq!(bridge.position(), 4);
}

#[test]
fn unfilled_buffer_sends_silence() {
    let mut bridge = OutputBridge::new(2, 2, 7i32);
    let mut cb = Idle { calls: 0 };
    let mut out = vec![0i32; 8];
    bridge.process(4, &mut out, &mut cb);
    assert_eq!(cb.calls, 2);
    assert_eq!(out, vec![7; 8]);
}

#[test]
fn pause_holds_position_and_skips_nothing() {
    let (stream, mut handler) = Stream::new_output(2, vec![], 4, 0.0f32, counter());
    let mut out = vec![0.0f32; 6];
    assert!(handler.process(3, &mut out));
    assert_eq!(handler.callback().calls, 1);
    assert_eq!(handler.position(), 3);

    stream.pause();
    let mut paused_out = vec![-5.0f32; 10];
    assert!(!handler.process(5, &mut paused_out));
    assert_eq!(paused_out, vec![-5.0; 10]);
    assert_eq!(handler.callback().calls, 1);
    assert_eq!(handler.position(), 3);

    stream.play();
    let mut resumed = vec![0.0f32; 4];
    assert!(handler.process(2, &mut resumed));
    // frame 3 of the first buffer, then frame 0 of the second
    assert_eq!(resumed, vec![6.0, 8.0, 7.0, 9.0]);
    assert_eq!(handler.callback().calls, 2);
    let _ = stream.output_port_names();
}

#[test]
fn process_when_paused_is_a_no_op() {
    let (_stream, mut handler) = Stream::new_output(1, vec![], 2, 0.0f32, counter());
    let mut out = vec![3.0f32; 4];
    handler.process_when(false, 4, &mut out);
    assert_eq!(out, vec![3.0; 4]);
    assert_eq!(handler.callback().calls, 0);
    handler.process_when(true, 4, &mut out);
    assert_eq!(out, vec![0.0, 1.0, 2.0, 3.0]);
    assert_eq!(handler.callback().calls, 2);
}

#[test]
fn new_output_stream_keeps_port_names() {
    let names = vec!["cpal:out_0".to_string(), "cpal:out_1".to_string()];
    let (stream, handler) = Stream::new_output(2, names.clone(), 8, 0.0f32, counter());
    assert_eq!(stream.output_port_names(), &names);
    assert!(stream.input_port_names().is_empty());
    assert_eq!(handler.position(), 8);
}

#[test]
fn input_bridge_interleaves_and_flushes_full_buffers() {
    let mut bridge = InputBridge::new(2, 4, 0i32);
    let mut rec = Recorder { buffers: vec![] };
    // frames carry 10*frame + channel
    let mut frame = 0;
    for &n in &[3usize, 3, 2] {
        let mut input = vec![0i32; 2 * n];
        for f in 0..n {
            for c in 0..2 {
                input[c * n + f] = 10 * (frame + f as i32) + c as i32;
            }
        }
        frame += n as i32;
        bridge.process(n, &input, &mut rec);
    }
    assert_eq!(rec.buffers.len(), 2);
    assert_eq!(rec.buffers[0], vec![0, 1, 10, 11, 20, 21, 30, 31]);
    assert_eq!(rec.buffers[1], vec![40, 41, 50, 51, 60, 61, 70, 71]);
    assert_eq!(bridge.position(), 0);
}

#[test]
fn input_bridge_keeps_partial_buffer() {
    let mut bridge = InputBridge::new(1, 4, 0i32);
    let mut rec = Recorder { buffers: vec![] };
    bridge.process(3, &vec![1, 2, 3], &mut rec);
    assert!(rec.buffers.is_empty());
    assert_eq!(bridge.position(), 3);
    bridge.process(2, &vec![4, 5], &mut rec);
    assert_eq!(rec.buffers, vec![vec![1, 2, 3, 4]]);
    assert_eq!(bridge.position(), 1);
}

#[test]
fn paused_input_handler_takes_nothing() {
    let (stream, mut handler) = Stream::new_input(1, vec!["cpal:in_0".to_string()], 2, 0i32, Recorder { buffers: vec![] });
    stream.pause();
    assert!(!handler.process(2, &vec![1, 2]));
    assert!(handler.callback().buffers.is_empty());
    assert_eq!(handler.position(), 0);
    stream.play();
    assert!(handler.process(2, &vec![1, 2]));
    assert_eq!(handler.callback().buffers, vec![vec![1, 2]]);
    handler.process_when(false, 2, &vec![3, 4]);
    assert_eq!(handler.callback().buffers.len(), 1);
    assert_eq!(stream.input_port_names().len(), 1);
}

#[test]
fn paused_handler_ignores_buffer_shape() {
    let (_stream, mut handler) = Stream::new_output(2, vec![], 4, 0.0f32, counter());
    let mut out = vec![1.5f32; 3];
    handler.process_when(false, 7, &mut out);
    assert_eq!(out, vec![1.5; 3]);
    assert_eq!(handler.callback().calls, 0);
    assert_eq!(handler.position(), 4);
}
