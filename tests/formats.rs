use cpal::{
    is_format_supported, CreationError, DefaultFormatError, Device, Direction, EventLoop, Format,
    FormatsEnumerationError, SampleFormat, SampleRate, SupportedFormat,
};

fn range(channels: u16, min: u32, max: u32, data_type: SampleFormat) -> SupportedFormat {
    SupportedFormat {
        channels,
        min_sample_rate: SampleRate(min),
        max_sample_rate: SampleRate(max),
        data_type,
    }
}

fn format(channels: u16, rate: u32, data_type: SampleFormat) -> Format {
    Format { channels, sample_rate: SampleRate(rate), data_type }
}

fn speaker() -> Device {
    Device::new(
        "speaker".to_string(),
        vec![],
        vec![range(2, 44100, 48000, SampleFormat::F32), range(1, 8000, 8000, SampleFormat::I16)],
    )
}

#[test]
fn sample_sizes() {
    assert_eq!(SampleFormat::U16.sample_size(), 2);
    assert_eq!(SampleFormat::I16.sample_size(), 2);
    assert_eq!(SampleFormat::F32.sample_size(), 4);
}

#[test]
fn with_max_sample_rate_picks_the_maximum() {
    let f = range(2, 44100, 96000, SampleFormat::U16).with_max_sample_rate();
    assert_eq!(f, format(2, 96000, SampleFormat::U16));
}

#[test]
fn supported_format_from_format_is_single_rate() {
    let r = SupportedFormat::from(format(1, 22050, SampleFormat::I16));
    assert_eq!(r, range(1, 22050, 22050, SampleFormat::I16));
}

#[test]
fn admits_includes_both_bounds() {
    let r = range(2, 44100, 48000, SampleFormat::F32);
    assert!(r.admits(&format(2, 44100, SampleFormat::F32)));
    assert!(r.admits(&format(2, 48000, SampleFormat::F32)));
    assert!(!r.admits(&format(2, 48001, SampleFormat::F32)));
    assert!(!r.admits(&format(2, 44099, SampleFormat::F32)));
    assert!(!r.admits(&format(1, 44100, SampleFormat::F32)));
    assert!(!r.admits(&format(2, 44100, SampleFormat::I16)));
}

#[test]
fn supported_when_any_range_admits() {
    let ranges = vec![range(2, 44100, 48000, SampleFormat::F32), range(1, 8000, 8000, SampleFormat::I16)];
    assert!(is_format_supported(&ranges, &format(1, 8000, SampleFormat::I16)));
    assert!(!is_format_supported(&ranges, &format(1, 44100, SampleFormat::F32)));
    assert!(!is_format_supported(&vec![], &format(1, 8000, SampleFormat::I16)));
}

#[test]
fn build_rejects_rate_outside_every_range() {
    let mut el = EventLoop::new();
    let r = el.build_output_stream(&speaker(), &format(2, 96000, SampleFormat::F32));
    assert_eq!(r, Err(CreationError::FormatNotSupported));
    // nothing was built: the next stream takes the first slot
    let id = el.build_output_stream(&speaker(), &format(2, 48000, SampleFormat::F32)).unwrap();
    assert_eq!(id.index(), 0);
}

#[test]
fn build_rejects_channel_count_without_range() {
    let mut el = EventLoop::new();
    let r = el.build_output_stream(&speaker(), &format(8, 44100, SampleFormat::F32));
    assert_eq!(r, Err(CreationError::FormatNotSupported));
    let r = el.build_input_stream(&speaker(), &format(2, 44100, SampleFormat::F32));
    assert_eq!(r, Err(CreationError::FormatNotSupported));
}

#[test]
fn build_on_gone_device_fails() {
    let mut el = EventLoop::new();
    let mut d = speaker();
    d.disconnect();
    let r = el.build_output_stream(&d, &format(2, 44100, SampleFormat::F32));
    assert_eq!(r, Err(CreationError::DeviceNotAvailable));
}

#[test]
fn built_stream_starts_paused() {
    let mut el = EventLoop::new();
    let f = format(1, 8000, SampleFormat::I16);
    let id = el.build_output_stream(&speaker(), &f).unwrap();
    let state = el.stream_state(id).unwrap();
    assert_eq!(state.direction, Direction::Output);
    assert_eq!(state.format, f);
    assert!(!state.playing);
    assert!(!el.is_delivering(id));
    el.play_stream(id);
    assert!(el.is_delivering(id));
    el.play_stream(id);
    assert!(el.is_delivering(id));
    el.pause_stream(id);
    assert!(!el.is_delivering(id));
}

#[test]
fn destroyed_stream_never_runs_its_callback_again() {
    let mut el = EventLoop::new();
    let f = format(2, 44100, SampleFormat::F32);
    let id = el.build_output_stream(&speaker(), &f).unwrap();
    let other = el.build_output_stream(&speaker(), &f).unwrap();
    el.play_stream(id);
    el.play_stream(other);
    let mut calls = 0;
    for _ in 0..3 {
        if el.is_delivering(id) {
            calls += 1;
        }
    }
    assert_eq!(calls, 3);
    el.destroy_stream(id);
    el.play_stream(id);
    let third = el.build_output_stream(&speaker(), &f).unwrap();
    assert_ne!(third, id);
    for _ in 0..3 {
        if el.is_delivering(id) {
            calls += 1;
        }
    }
    assert_eq!(calls, 3);
    assert!(el.stream_state(id).is_none());
    assert!(el.is_delivering(other));
}

#[test]
fn unknown_stream_is_ignored() {
    let mut el = EventLoop::new();
    let f = format(2, 44100, SampleFormat::F32);
    let id = el.build_output_stream(&speaker(), &f).unwrap();
    el.destroy_stream(id);
    el.destroy_stream(id);
    el.pause_stream(id);
    assert!(el.stream_state(id).is_none());
}

#[test]
fn device_queries() {
    let d = speaker();
    assert_eq!(d.name(), "speaker");
    let mut outs = d.supported_output_formats().unwrap();
    assert_eq!(outs.next(), Some(range(2, 44100, 48000, SampleFormat::F32)));
    assert_eq!(outs.next(), Some(range(1, 8000, 8000, SampleFormat::I16)));
    assert_eq!(outs.next(), None);
    let mut ins = d.supported_input_formats().unwrap();
    assert_eq!(ins.next(), None);
    assert_eq!(d.default_output_format(), Ok(format(2, 48000, SampleFormat::F32)));
    assert_eq!(d.default_input_format(), Err(DefaultFormatError::StreamTypeNotSupported));
}

#[test]
fn gone_device_reports_unavailable() {
    let mut d = Device::new("mic".to_string(), vec![range(1, 8000, 16000, SampleFormat::I16)], vec![]);
    assert_eq!(d.default_input_format(), Ok(format(1, 16000, SampleFormat::I16)));
    assert_eq!(d.supported_input_formats().unwrap().next(), Some(range(1, 8000, 16000, SampleFormat::I16)));
    d.disconnect();
    assert_eq!(d.default_input_format(), Err(DefaultFormatError::DeviceNotAvailable));
    assert_eq!(d.default_output_format(), Err(DefaultFormatError::DeviceNotAvailable));
    assert!(matches!(d.supported_input_formats(), Err(FormatsEnumerationError::DeviceNotAvailable)));
    assert!(matches!(d.supported_output_formats(), Err(FormatsEnumerationError::DeviceNotAvailable)));
    assert_eq!(d.name(), "mic");
}

#[test]
fn input_stream_is_built_against_input_ranges() {
    let mut el = EventLoop::new();
    let d = Device::new("mic".to_string(), vec![range(1, 8000, 16000, SampleFormat::I16)], vec![]);
    let id = el.build_input_stream(&d, &format(1, 12000, SampleFormat::I16)).unwrap();
    assert_eq!(el.stream_state(id).unwrap().direction, Direction::Input);
    assert_eq!(
        el.build_output_stream(&d, &format(1, 12000, SampleFormat::I16)),
        Err(CreationError::FormatNotSupported)
    );
}

#[test]
fn error_descriptions() {
    assert_eq!(
        CreationError::FormatNotSupported.description(),
        "The requested samples format is not supported by the device."
    );
    assert_eq!(
        CreationError::DeviceNotAvailable.description(),
        "The requested device is no longer available (for example, it has been unplugged)."
    );
    assert_eq!(
        FormatsEnumerationError::DeviceNotAvailable.description(),
        "The requested device is no longer available (for example, it has been unplugged)."
    );
}
