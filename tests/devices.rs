use cpal::{
    default_input_device, default_output_device, devices, input_devices, output_devices, Device,
    Devices, SampleFormat, SampleRate, SupportedFormat,
};

fn range(channels: u16) -> SupportedFormat {
    SupportedFormat {
        channels,
        min_sample_rate: SampleRate(44100),
        max_sample_rate: SampleRate(48000),
        data_type: SampleFormat::F32,
    }
}

fn system() -> Devices {
    let mut gone = Device::new("gone".to_string(), vec![range(1)], vec![range(2)]);
    gone.disconnect();
    Devices::new(vec![
        Device::new("speaker".to_string(), vec![], vec![range(2)]),
        gone,
        Device::new("mic".to_string(), vec![range(1)], vec![]),
        Device::new("duplex".to_string(), vec![range(2)], vec![range(2)]),
    ])
}

fn names(list: &[&Device]) -> Vec<String> {
    list.iter().map(|d| d.name()).collect()
}

#[test]
fn all_devices_in_backend_order() {
    let all = system();
    assert_eq!(all.len(), 4);
    assert_eq!(names(&devices(&all)), vec!["speaker", "gone", "mic", "duplex"]);
    assert_eq!(all.get(2).unwrap().name(), "mic");
    assert!(all.get(4).is_none());
}

#[test]
fn input_devices_skip_gone_and_output_only() {
    let all = system();
    assert_eq!(names(&input_devices(&all)), vec!["mic", "duplex"]);
}

#[test]
fn output_devices_skip_gone_and_input_only() {
    let all = system();
    assert_eq!(names(&output_devices(&all)), vec!["speaker", "duplex"]);
}

#[test]
fn default_devices_are_first_capable() {
    let all = system();
    assert_eq!(default_input_device(&all).unwrap().name(), "mic");
    assert_eq!(default_output_device(&all).unwrap().name(), "speaker");
    let none = Devices::new(vec![]);
    assert!(default_input_device(&none).is_none());
    assert!(default_output_device(&none).is_none());
    assert!(input_devices(&none).is_empty());
}

#[test]
fn capability_checks() {
    let all = system();
    assert!(all.get(3).unwrap().has_input());
    assert!(all.get(3).unwrap().has_output());
    assert!(!all.get(1).unwrap().has_input());
    assert!(!all.get(0).unwrap().has_input());
}
