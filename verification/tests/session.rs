use subwin::bridge::{NotificationMessage, NotificationType};
use subwin::device::AudioDeviceSettings;
use subwin::session::{
    load_transcription_inputs, plan_session, SessionPlan, DEVICE_NOT_SELECTED, HANDOFF_SECONDS,
    MODEL_FILE_MISSING, MODEL_NOT_CONFIGURED,
};

fn error(text: &str) -> NotificationMessage {
    NotificationMessage { notification_type: NotificationType::Error, message: text.to_string() }
}

#[test]
fn missing_model_is_refused() {
    let refused = load_transcription_inputs(None, false, true);
    assert_eq!(refused, Err(error("Сначала скачайте модель для распознания речи.")));
    assert_eq!(load_transcription_inputs(None, true, false), Err(error(MODEL_NOT_CONFIGURED)));
}

#[test]
fn absent_model_file_is_refused() {
    let refused = load_transcription_inputs(Some("model.bin".to_string()), false, true);
    assert_eq!(refused, Err(error("Скачанная модель распознавания речи повреждена.")));
    let refused = load_transcription_inputs(Some("model.bin".to_string()), false, false);
    assert_eq!(refused, Err(error(MODEL_FILE_MISSING)));
}

#[test]
fn missing_device_is_refused() {
    let refused = load_transcription_inputs(Some("model.bin".to_string()), true, false);
    assert_eq!(refused, Err(error("Выберите вводное устройство для захвата звука.")));
    assert_eq!(DEVICE_NOT_SELECTED, "Выберите вводное устройство для захвата звука.");
}

#[test]
fn complete_inputs_are_accepted() {
    let accepted = load_transcription_inputs(Some("/models/ggml-small.bin".to_string()), true, true);
    assert_eq!(accepted, Ok("/models/ggml-small.bin".to_string()));
}

#[test]
fn session_is_sized_from_the_device() {
    let settings = AudioDeviceSettings { sample_rate: 44100, channels: 2, target_buffer_size: 7938 };
    assert_eq!(
        plan_session(&settings),
        SessionPlan {
            source_rate: 44100,
            target_rate: 16000,
            buffer_frames: 7938,
            channels: 2,
            handoff_capacity: 48000,
        }
    );
    assert_eq!(HANDOFF_SECONDS, 3);
}
