//! How large the capture buffer of an input device is chosen.

use crate::math::{find_nearest_to, gcd, gcd_of, is_gcd, lemma_gcd_exists, nearest_multiple};
use vstd::prelude::*;

verus! {

/// The buffer size, in frames, that is assumed where a device does not say
/// which sizes it supports.
pub const FIXED_FRAME_COUNT: u32 = 4096;

/// What capture needs to know of an input device.
#[derive(Debug, Clone, Copy, PartialEq, Eq, Structural)]
pub struct AudioDeviceSettings {
    /// The device's sample rate, in samples per second.
    pub sample_rate: u32,
    /// The number of channels that the device delivers, at least one.
    pub channels: u16,
    /// The size of the buffers in which audio is captured, in frames.
    pub target_buffer_size: u32,
}

/// The largest buffer that a device supports, as far as it is known.
pub open spec fn reported_frames(reported_max: Option<u32>) -> int {
    match reported_max {
        Some(frames) => frames as int,
        None => FIXED_FRAME_COUNT as int,
    }
}

/// The shortest run of input frames that converts to a whole number of
/// output frames: the device's rate divided by what it has in common with
/// the target rate.
pub open spec fn rate_step(sample_rate: int, target_rate: int) -> int {
    sample_rate / gcd_of(sample_rate, target_rate)
}

/// The buffer size for a device: the multiple of the rate step nearest to
/// the largest buffer that the device supports.
pub open spec fn buffer_frames(reported_max: Option<u32>, sample_rate: int, target_rate: int) -> int {
    nearest_multiple(reported_frames(reported_max), rate_step(sample_rate, target_rate))
}

/// The buffer size is never more than one device rate beyond the largest
/// buffer that the device supports: where that sum can be held in 32 bits,
/// so can the buffer size.
pub proof fn lemma_buffer_frames_bound(reported_max: Option<u32>, sample_rate: int, target_rate: int)
    requires
        0 < sample_rate,
        0 <= target_rate,
    ensures
        0 <= buffer_frames(reported_max, sample_rate, target_rate) <= reported_frames(
            reported_max,
        ) + sample_rate,
        0 < rate_step(sample_rate, target_rate) <= sample_rate,
{
    let g = gcd_of(sample_rate, target_rate);
    lemma_gcd_exists(sample_rate, target_rate);
    assert(g <= sample_rate) by {
        if g > sample_rate {
            vstd::arithmetic::div_mod::lemma_small_mod(sample_rate as nat, g as nat);
        }
    }
    let step = sample_rate / g;
    assert(0 < step <= sample_rate) by (nonlinear_arith)
        requires
            step == sample_rate / g,
            0 < g <= sample_rate,
    ;
    let frames = reported_frames(reported_max);
    vstd::arithmetic::div_mod::lemma_mod_bound(frames, step);
    vstd::arithmetic::div_mod::lemma_mod_decreases(frames as nat, step as nat);
}

/// Chooses the capture buffer size for a device that samples at
/// `sample_rate` and supports buffers of up to `reported_max` frames, for
/// conversion to `target_rate`.
pub fn target_buffer_size(reported_max: Option<u32>, sample_rate: u32, target_rate: u32) -> (frames:
    u32)
    requires
        sample_rate > 0,
        buffer_frames(reported_max, sample_rate as int, target_rate as int) <= u32::MAX,
    ensures
        frames == buffer_frames(reported_max, sample_rate as int, target_rate as int),
        frames % (rate_step(sample_rate as int, target_rate as int) as u32) == 0,
{
    let device_buffer_size = match reported_max {
        Some(max) => max,
        None => FIXED_FRAME_COUNT,
    };
    let rate_denominator = gcd(sample_rate, target_rate);
    let step: u32 = sample_rate / rate_denominator;
    assert(step > 0) by (nonlinear_arith)
        requires
            step == sample_rate / rate_denominator,
            0 < rate_denominator <= sample_rate,
    ;
    find_nearest_to(device_buffer_size, step)
}

/// The settings for a device that reports `sample_rate`, `channels` and
/// `reported_max`, for conversion to `target_rate`.
pub fn derive_audio_device_settings(
    sample_rate: u32,
    channels: u16,
    reported_max: Option<u32>,
    target_rate: u32,
) -> (settings: AudioDeviceSettings)
    requires
        sample_rate > 0,
        buffer_frames(reported_max, sample_rate as int, target_rate as int) <= u32::MAX,
    ensures
        settings == (AudioDeviceSettings {
            sample_rate,
            channels,
            target_buffer_size: buffer_frames(
                reported_max,
                sample_rate as int,
                target_rate as int,
            ) as u32,
        }),
{
    AudioDeviceSettings {
        sample_rate,
        channels,
        target_buffer_size: target_buffer_size(reported_max, sample_rate, target_rate),
    }
}

} // verus!
