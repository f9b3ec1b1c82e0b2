use subwin::device::{
    derive_audio_device_settings, target_buffer_size, AudioDeviceSettings, FIXED_FRAME_COUNT,
};

#[test]
fn fallback_frame_count() {
    assert_eq!(FIXED_FRAME_COUNT, 4096);
}

#[test]
fn buffer_size_for_44100() {
    assert_eq!(target_buffer_size(Some(8000), 44100, 16000), 7938);
}

#[test]
fn buffer_size_for_48000() {
    assert_eq!(target_buffer_size(Some(48000), 48000, 16000), 48000);
    assert_eq!(target_buffer_size(Some(4097), 48000, 16000), 4098);
    assert_eq!(target_buffer_size(Some(4096), 48000, 16000), 4095);
}

#[test]
fn unknown_maximum_falls_back() {
    assert_eq!(target_buffer_size(None, 48000, 16000), 4095);
    assert_eq!(target_buffer_size(None, 16000, 16000), 4096);
    assert_eq!(target_buffer_size(None, 44100, 16000), 3969);
}

#[test]
fn buffer_size_is_a_multiple_of_the_rate_step() {
    for max in [1u32, 100, 441, 1000, 4096, 8000, 65536] {
        assert_eq!(target_buffer_size(Some(max), 44100, 16000) % 441, 0);
        assert_eq!(target_buffer_size(Some(max), 48000, 16000) % 3, 0);
        assert_eq!(target_buffer_size(Some(max), 22050, 16000) % 441, 0);
    }
}

#[test]
fn small_maximum_can_round_to_zero() {
    assert_eq!(target_buffer_size(Some(100), 44100, 16000), 0);
    assert_eq!(target_buffer_size(Some(220), 44100, 16000), 0);
    assert_eq!(target_buffer_size(Some(221), 44100, 16000), 441);
}

#[test]
fn target_rate_zero_gives_a_step_of_one() {
    assert_eq!(target_buffer_size(Some(1234), 48000, 0), 1234);
}

#[test]
fn settings_are_derived_from_the_device_report() {
    assert_eq!(
        derive_audio_device_settings(44100, 2, Some(8000), 16000),
        AudioDeviceSettings { sample_rate: 44100, channels: 2, target_buffer_size: 7938 }
    );
    assert_eq!(
        derive_audio_device_settings(48000, 1, None, 16000),
        AudioDeviceSettings { sample_rate: 48000, channels: 1, target_buffer_size: 4095 }
    );
}
