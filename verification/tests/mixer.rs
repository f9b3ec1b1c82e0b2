use subwin::mixer::{downmix, mix_stereo_to_mono};

fn mean(frame: &[f32]) -> f32 {
    frame.iter().sum::<f32>() / frame.len() as f32
}

#[test]
fn stereo_is_averaged_pairwise() {
    let data = [0.5f32, 0.25, -1.0, 1.0, 0.125, 0.375, 1.0, 1.0];
    let mut mono = [9.0f32; 4];
    let frames = mix_stereo_to_mono(&mut mono, &data, &mean);
    assert_eq!(frames, 4);
    for i in 0..frames {
        assert_eq!(mono[i], (data[2 * i] + data[2 * i + 1]) / 2.0);
    }
    assert_eq!(mono, [0.375, 0.0, 0.25, 1.0]);
}

#[test]
fn stereo_mixing_twice_gives_the_same() {
    let data = [0.1f32, 0.2, 0.3, 0.4];
    let mut first = [0.0f32; 2];
    let mut second = [7.0f32; 2];
    mix_stereo_to_mono(&mut first, &data, &mean);
    mix_stereo_to_mono(&mut second, &data, &mean);
    assert_eq!(first, second);
}

#[test]
fn odd_sample_and_spare_accumulator_are_left_alone() {
    let data = [1.0f32, 3.0, 5.0];
    let mut mono = [9.0f32; 3];
    let frames = mix_stereo_to_mono(&mut mono, &data, &mean);
    assert_eq!(frames, 1);
    assert_eq!(mono, [2.0, 9.0, 9.0]);
}

#[test]
fn empty_input_mixes_to_nothing() {
    let mut mono = [4.0f32; 2];
    assert_eq!(mix_stereo_to_mono(&mut mono, &[], &mean), 0);
    assert_eq!(mono, [4.0, 4.0]);
    let mut none: [f32; 0] = [];
    assert_eq!(downmix(&mut none, &[], 3, &mean), 0);
}

#[test]
fn downmix_averages_each_frame() {
    let data = [1.0f32, 2.0, 3.0, 10.0, 20.0, 30.0];
    let mut mono = [0.0f32; 2];
    assert_eq!(downmix(&mut mono, &data, 3, &mean), 2);
    assert_eq!(mono, [2.0, 20.0]);
}

#[test]
fn downmix_of_mono_copies() {
    let data = [0.5f32, -0.5, 0.25];
    let mut mono = [0.0f32; 3];
    assert_eq!(downmix(&mut mono, &data, 1, &mean), 3);
    assert_eq!(mono, data);
}

#[test]
fn downmix_hands_each_frame_to_the_averaging_once_and_in_place() {
    let data: Vec<i64> = (0..12).collect();
    let mut mono = [0i64; 3];
    let frames = downmix(&mut mono, &data, 4, &|frame: &[i64]| {
        1000 * frame[0] + 100 * frame[1] + 10 * frame[2] + frame[3]
    });
    assert_eq!(frames, 3);
    assert_eq!(mono, [123, 4567, 9011]);
}
