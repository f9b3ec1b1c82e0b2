//! What has to hold before a transcription session starts, and how a
//! session is sized.

use crate::bridge::{NotificationMessage, NotificationType};
use crate::device::AudioDeviceSettings;
use crate::worker::TARGET_RATE;
use vstd::prelude::*;

verus! {

/// Seconds of converted audio that the handoff buffer between the capture
/// callback and the worker can hold.
pub const HANDOFF_SECONDS: u32 = 3;

/// Shown where no model has been configured.
pub const MODEL_NOT_CONFIGURED: &'static str = "Сначала скачайте модель для распознания речи.";

/// Shown where the configured model file does not exist.
pub const MODEL_FILE_MISSING: &'static str = "Скачанная модель распознавания речи повреждена.";

/// Shown where no input device has been selected.
pub const DEVICE_NOT_SELECTED: &'static str = "Выберите вводное устройство для захвата звука.";

/// How a session is sized, once its device is known.
#[derive(Debug, Clone, Copy, PartialEq, Eq, Structural)]
pub struct SessionPlan {
    /// Sample rate of the device, from which audio is converted.
    pub source_rate: u32,
    /// Sample rate that audio is converted to.
    pub target_rate: u32,
    /// Frames in each buffer from the device, which is also the block size
    /// of the converter and the length of the worker's pull buffer.
    pub buffer_frames: u32,
    /// Channels that the device delivers.
    pub channels: u16,
    /// Samples that the handoff buffer holds.
    pub handoff_capacity: usize,
}

/// `notification` is an error and says `text`.
pub open spec fn is_error_with(notification: NotificationMessage, text: Seq<char>) -> bool {
    notification.notification_type == NotificationType::Error && notification.message@ == text
}

/// An error notification with this text.
fn error_notification(text: &str) -> (notification: NotificationMessage)
    ensures
        is_error_with(notification, text@),
{
    NotificationMessage { notification_type: NotificationType::Error, message: text.to_owned() }
}

/// Checks what a session needs before it starts, in this order: a model
/// path is configured, the model file exists, an input device is selected.
/// Returns the model path where all three hold, else the notification for
/// the first that does not.
pub fn load_transcription_inputs(
    active_model_path: Option<String>,
    model_file_exists: bool,
    device_selected: bool,
) -> (inputs: Result<String, NotificationMessage>)
    ensures
        match active_model_path {
            None => inputs matches Err(notification) && is_error_with(
                notification,
                MODEL_NOT_CONFIGURED@,
            ),
            Some(path) => if !model_file_exists {
                inputs matches Err(notification) && is_error_with(
                    notification,
                    MODEL_FILE_MISSING@,
                )
            } else if !device_selected {
                inputs matches Err(notification) && is_error_with(
                    notification,
                    DEVICE_NOT_SELECTED@,
                )
            } else {
                inputs == Ok::<String, NotificationMessage>(path)
            },
        },
{
    let path = match active_model_path {
        Some(path) => path,
        None => {
            return Err(error_notification(MODEL_NOT_CONFIGURED));
        },
    };
    if !model_file_exists {
        return Err(error_notification(MODEL_FILE_MISSING));
    }
    if !device_selected {
        return Err(error_notification(DEVICE_NOT_SELECTED));
    }
    Ok(path)
}

/// Sizes a session for a device with these settings: audio is converted
/// from the device's rate to 16 kHz in blocks of the device's buffer size,
/// and the handoff buffer holds three seconds of converted audio.
pub fn plan_session(settings: &AudioDeviceSettings) -> (plan: SessionPlan)
    ensures
        plan == (SessionPlan {
            source_rate: settings.sample_rate,
            target_rate: TARGET_RATE,
            buffer_frames: settings.target_buffer_size,
            channels: settings.channels,
            handoff_capacity: (TARGET_RATE * HANDOFF_SECONDS) as usize,
        }),
{
    SessionPlan {
        source_rate: settings.sample_rate,
        target_rate: TARGET_RATE,
        buffer_frames: settings.target_buffer_size,
        channels: settings.channels,
        handoff_capacity: (TARGET_RATE * HANDOFF_SECONDS) as usize,
    }
}

} // verus!
