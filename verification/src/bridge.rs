//! The messages that the captioning core exchanges with a front-end, and
//! the settings that it reads.

use vstd::prelude::*;

verus! {

/// How severe a notification is, which decides how it is shown.
#[derive(Debug, Clone, Copy, PartialEq, Eq, Structural)]
pub enum NotificationType {
    /// Neutral information.
    Info,
    /// An operation went well.
    Success,
    /// Something the user should know of, which does not stop the work.
    Warning,
    /// A failure that may affect what the application can do.
    Error,
}

/// A notification for the user.
#[derive(Debug, PartialEq, Eq)]
pub struct NotificationMessage {
    pub notification_type: NotificationType,
    pub message: String,
}

impl Clone for NotificationMessage {
    fn clone(&self) -> (copy: Self)
        ensures
            copy == *self,
    {
        NotificationMessage {
            notification_type: self.notification_type,
            message: self.message.clone(),
        }
    }
}

/// The speech models that can be downloaded and used.
#[derive(Debug, Clone, Copy, PartialEq, Eq, Structural)]
pub enum WhisperModel {
    TinyQuantized8,
    TinyQuantized5,
    Tiny,
    SmallQuantized8,
    SmallQuantized5,
    Small,
    BaseQuantized8,
    BaseQuantized5,
    Base,
    MediumQuantized8,
    MediumQuantized5,
    Medium,
    LargeTurboQuantized8,
    LargeTurboQuantized5,
    LargeTurbo,
    LargeQuantized5,
    Large,
}

/// What a front-end asks of the core.
#[derive(Debug, PartialEq, Eq)]
pub enum MessageToBackend {
    /// Asks for the current configuration.
    ConfigurationRequest,
    /// Asks to download a model.
    DownloadModelRequest(WhisperModel),
    /// Asks for the list of input devices.
    AudioDevicesListRequest,
    /// Selects the input device with this identifier.
    SelectAudioDevice(String),
    /// Asks to begin a transcription session.
    StartTranscriptionRequest,
}

impl Clone for MessageToBackend {
    fn clone(&self) -> (copy: Self)
        ensures
            copy == *self,
    {
        match self {
            MessageToBackend::ConfigurationRequest => MessageToBackend::ConfigurationRequest,
            MessageToBackend::DownloadModelRequest(model) => MessageToBackend::DownloadModelRequest(
                *model,
            ),
            MessageToBackend::AudioDevicesListRequest => MessageToBackend::AudioDevicesListRequest,
            MessageToBackend::SelectAudioDevice(id) => MessageToBackend::SelectAudioDevice(
                id.clone(),
            ),
            MessageToBackend::StartTranscriptionRequest => MessageToBackend::StartTranscriptionRequest,
        }
    }
}

/// An input device as a front-end lists it.
#[derive(Debug, PartialEq, Eq)]
pub struct InputDevice {
    pub id: String,
    pub description: String,
    pub selected: bool,
}

impl Clone for InputDevice {
    fn clone(&self) -> (copy: Self)
        ensures
            copy == *self,
    {
        InputDevice {
            id: self.id.clone(),
            description: self.description.clone(),
            selected: self.selected,
        }
    }
}

/// What the captioning core tells a front-end.
#[derive(Debug, PartialEq, Eq)]
pub enum MessageFromBackend {
    /// Something the user should read.
    NotificationMessage(NotificationMessage),
    /// The input devices, in the order in which the host reports them.
    AudioDevicesListResponse(Vec<InputDevice>),
    /// A transcription session has begun.
    TranscriptionStartedResponse,
    /// A new caption line, and the time that the decode behind it took.
    TranscriptionStateUpdate { time_taken: u128, new_segment_text: String },
}

/// How the area behind the caption text is drawn.
#[derive(Debug, Clone, Copy, PartialEq, Eq, Structural)]
pub enum CaptionsBackgroundAppearance {
    /// A solid background.
    Opaque,
    /// No background.
    Transparent,
    /// A blurred, half transparent background.
    Blurred,
}

impl Default for CaptionsBackgroundAppearance {
    fn default() -> (appearance: Self)
        ensures
            appearance == CaptionsBackgroundAppearance::Blurred,
    {
        CaptionsBackgroundAppearance::Blurred
    }
}

/// Which audio host and input device the user prefers. The host is kept as
/// it was read and is not acted on: capture uses the default host.
#[derive(Debug, PartialEq, Eq)]
pub struct AudioDeviceConfig {
    pub selected_host_id: Option<String>,
    pub selected_device_id: Option<String>,
}

impl Default for AudioDeviceConfig {
    fn default() -> (config: Self)
        ensures
            config.selected_host_id is None,
            config.selected_device_id is None,
    {
        AudioDeviceConfig { selected_host_id: None, selected_device_id: None }
    }
}

impl AudioDeviceConfig {
    /// Records the input device with identifier `id` as the selected one.
    /// The host is left as it is.
    pub fn select_device(&mut self, id: String)
        ensures
            final(self).selected_device_id == Some(id),
            final(self).selected_host_id == old(self).selected_host_id,
    {
        self.selected_device_id = Some(id);
    }
}

impl Clone for AudioDeviceConfig {
    fn clone(&self) -> (copy: Self)
        ensures
            copy == *self,
    {
        AudioDeviceConfig {
            selected_host_id: self.selected_host_id.clone(),
            selected_device_id: self.selected_device_id.clone(),
        }
    }
}

/// The name of the file that holds `model`, as a sequence of characters.
pub open spec fn model_file_name_of(model: WhisperModel) -> Seq<char> {
    match model {
        WhisperModel::TinyQuantized8 => "ggml-tiny-q8_0.bin"@,
        WhisperModel::TinyQuantized5 => "ggml-tiny-q5_1.bin"@,
        WhisperModel::Tiny => "ggml-tiny.bin"@,
        WhisperModel::SmallQuantized8 => "ggml-small-q8_0.bin"@,
        WhisperModel::SmallQuantized5 => "ggml-small-q5_1.bin"@,
        WhisperModel::Small => "ggml-small.bin"@,
        WhisperModel::BaseQuantized8 => "ggml-base-q8_0.bin"@,
        WhisperModel::BaseQuantized5 => "ggml-base-q5_1.bin"@,
        WhisperModel::Base => "ggml-base.bin"@,
        WhisperModel::MediumQuantized8 => "ggml-medium-q8_0.bin"@,
        WhisperModel::MediumQuantized5 => "ggml-medium-q5_0.bin"@,
        WhisperModel::Medium => "ggml-medium.bin"@,
        WhisperModel::LargeTurboQuantized8 => "ggml-large-v3-turbo-q8_0.bin"@,
        WhisperModel::LargeTurboQuantized5 => "ggml-large-v3-turbo-q5_0.bin"@,
        WhisperModel::LargeTurbo => "ggml-large-v3-turbo.bin"@,
        WhisperModel::LargeQuantized5 => "ggml-large-v3-q5_0.bin"@,
        WhisperModel::Large => "ggml-large-v3.bin"@,
    }
}

/// The name of the file that holds `model`, under which it is downloaded
/// and stored.
pub fn model_file_name(model: &WhisperModel) -> (name: &'static str)
    ensures
        name@ == model_file_name_of(*model),
{
    match model {
        WhisperModel::TinyQuantized8 => "ggml-tiny-q8_0.bin",
        WhisperModel::TinyQuantized5 => "ggml-tiny-q5_1.bin",
        WhisperModel::Tiny => "ggml-tiny.bin",
        WhisperModel::SmallQuantized8 => "ggml-small-q8_0.bin",
        WhisperModel::SmallQuantized5 => "ggml-small-q5_1.bin",
        WhisperModel::Small => "ggml-small.bin",
        WhisperModel::BaseQuantized8 => "ggml-base-q8_0.bin",
        WhisperModel::BaseQuantized5 => "ggml-base-q5_1.bin",
        WhisperModel::Base => "ggml-base.bin",
        WhisperModel::MediumQuantized8 => "ggml-medium-q8_0.bin",
        WhisperModel::MediumQuantized5 => "ggml-medium-q5_0.bin",
        WhisperModel::Medium => "ggml-medium.bin",
        WhisperModel::LargeTurboQuantized8 => "ggml-large-v3-turbo-q8_0.bin",
        WhisperModel::LargeTurboQuantized5 => "ggml-large-v3-turbo-q5_0.bin",
        WhisperModel::LargeTurbo => "ggml-large-v3-turbo.bin",
        WhisperModel::LargeQuantized5 => "ggml-large-v3-q5_0.bin",
        WhisperModel::Large => "ggml-large-v3.bin",
    }
}

/// Builds the answer to a request for the input devices: each device of
/// `devices`, given as identifier and description, in the same order, marked
/// as selected where its identifier is the selected one.
pub fn list_input_devices(devices: Vec<(String, String)>, selected: &Option<String>) -> (listed:
    Vec<InputDevice>)
    ensures
        listed.len() == devices.len(),
        forall|i: int|
            0 <= i < listed.len() ==> {
                &&& (#[trigger] listed[i]).id@ == devices[i].0@
                &&& listed[i].description@ == devices[i].1@
                &&& listed[i].selected == match selected {
                    Some(id) => id@ == devices[i].0@,
                    None => false,
                }
            },
{
    let ghost given = devices@;
    let mut listed: Vec<InputDevice> = Vec::new();
    for device in walk: devices
        invariant
            walk.seq() == given,
            listed.len() == walk.index(),
            forall|i: int|
                0 <= i < listed.len() ==> {
                    &&& (#[trigger] listed[i]).id@ == given[i].0@
                    &&& listed[i].description@ == given[i].1@
                    &&& listed[i].selected == match selected {
                        Some(id) => id@ == given[i].0@,
                        None => false,
                    }
                },
    {
        let is_selected = match selected {
            Some(id) => *id == device.0,
            None => false,
        };
        listed.push(InputDevice { id: device.0, description: device.1, selected: is_selected });
    }
    listed
}

} // verus!
