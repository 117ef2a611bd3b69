use dictate::audio::{
    peak, resample_to_target, CaptureError, Captured, Resampling, Sample, BLOCK, TARGET_RATE,
};
use dictate::process::{trim_silence, SPEECH_LEVEL};
use dictate::session::{screen, Screening, SILENCE};

fn samples(values: &[f32]) -> Vec<Sample> {
    values.iter().map(|v| Sample { bits: v.to_bits() }).collect()
}

fn values(samples: &[Sample]) -> Vec<f32> {
    samples.iter().map(|s| f32::from_bits(s.bits)).collect()
}

#[test]
fn trims_silence_from_both_ends() {
    // 16 kHz: 0.5 s of silence, 0.2 s of tone, 0.5 s of silence.
    let mut s = vec![0.0f32; 8000];
    s.extend(std::iter::repeat(0.5).take(3200));
    s.extend(std::iter::repeat(0.0).take(8000));
    let s = samples(&s);
    let trimmed = trim_silence(&s, 16_000);
    // Padding keeps some silence, but the bulk is gone.
    assert!(trimmed.len() < s.len());
    assert!(trimmed.len() >= 3200);
}

#[test]
fn trim_leaves_all_silence_untouched() {
    let s = samples(&vec![0.0f32; 4000]);
    assert_eq!(trim_silence(&s, 16_000).len(), s.len());
}

#[test]
fn trimming_rounds_out_to_frames_and_keeps_the_pad() {
    // Frames of 320 samples and a pad of 1920: the tone covers the frames 25 to 34 exactly.
    let mut s = vec![0.0f32; 8000];
    s.extend(std::iter::repeat(-0.5).take(3200));
    s.extend(std::iter::repeat(0.0).take(8000));
    let trimmed = values(&trim_silence(&samples(&s), 16_000));
    assert_eq!(trimmed.len(), 1920 + 3200 + 1920);
    assert_eq!(trimmed, s[8000 - 1920..8000 + 3200 + 1920].to_vec());

    // One click in the middle of a frame keeps the whole frame.
    let mut click = vec![0.0f32; 16_000];
    click[8_100] = 0.01;
    let kept = values(&trim_silence(&samples(&click), 16_000));
    assert_eq!(kept, click[8000 - 1920..8320 + 1920].to_vec());
}

#[test]
fn trimming_stops_at_the_ends_of_the_buffer() {
    let mut s = vec![0.0f32; 1000];
    s[10] = 1.0;
    s[990] = -1.0;
    assert_eq!(values(&trim_silence(&samples(&s), 16_000)), s);
    assert!(trim_silence(&[], 16_000).is_empty());
    // A rate so low that a frame would be empty has frames of one sample and no pad.
    let low = [0.0f32, 0.5, 0.0, 0.5, 0.0];
    assert_eq!(values(&trim_silence(&samples(&low), 8)), vec![0.5, 0.0, 0.5]);
}

#[test]
fn the_speech_level_is_that_of_the_silence_check() {
    assert_eq!(SPEECH_LEVEL, 0.005f32.to_bits());
    assert_eq!(SPEECH_LEVEL, SILENCE);
    let below = f32::from_bits(0.005f32.to_bits() - 1);
    let mut s = vec![below; 4000];
    assert_eq!(screen(&samples(&s), 0), Screening::Silent);
    assert_eq!(trim_silence(&samples(&s), 16_000).len(), 4000);
    s[0] = -0.005;
    assert_eq!(screen(&samples(&s), 0), Screening::Speech);
    assert_eq!(trim_silence(&samples(&s), 16_000).len(), 320 + 1920);
}

#[test]
fn a_trimmed_buffer_stays_as_it_is() {
    let mut s = vec![0.0f32; 16_000];
    s[7_777] = 0.5;
    s[9_001] = 0.5;
    let once = trim_silence(&samples(&s), 16_000);
    assert_eq!(once.len(), 1920 + (9_280 - 7_680) + 1920);
    assert_eq!(trim_silence(&once, 16_000), once);
}

#[test]
fn quiet_speech_is_trimmed_to_its_pad() {
    let s = [0.0f32, 0.0, 0.0, 0.007, 0.0, 0.0, 0.0];
    let trimmed = trim_silence(&samples(&s), 10);
    assert_eq!(values(&trimmed), vec![0.0, 0.007, 0.0]);
    assert_eq!(screen(&trimmed, 0), Screening::Speech);
}

#[test]
fn what_is_not_a_number_is_not_speech() {
    let mut s = vec![f32::NAN; 8000];
    assert_eq!(trim_silence(&samples(&s), 16_000).len(), 8000);
    s[4000] = f32::NEG_INFINITY;
    // Frame 12 begins at 3840.
    assert_eq!(trim_silence(&samples(&s), 16_000).len(), 1920 + 320 + 1920);
}

#[test]
fn peak_is_the_largest_magnitude() {
    let cases: [&[f32]; 6] = [
        &[],
        &[0.0, -0.0],
        &[0.25, -0.75, 0.5],
        &[f32::NAN, 0.125, -f32::NAN],
        &[f32::NAN],
        &[1.0e-40, f32::NEG_INFINITY, f32::MAX],
    ];
    for case in cases {
        let expected = case.iter().fold(0.0f32, |m, s| m.max(s.abs()));
        assert_eq!(peak(&samples(case)).bits, expected.to_bits());
    }
    assert_eq!(peak(&samples(&[0.25, -0.75])).bits, 0.75f32.to_bits());
}

#[test]
fn target_rate_needs_no_resampling() {
    let s = samples(&[0.1, 0.2]);
    match resample_to_target(&s, TARGET_RATE) {
        Resampling::Done(all) => assert_eq!(all, s),
        Resampling::Blocks(_) => panic!("nothing to resample"),
    }
}

#[test]
fn other_rates_are_cut_into_full_blocks() {
    let s: Vec<Sample> = (0..2500u32).map(|bits| Sample { bits: bits + 1 }).collect();
    match resample_to_target(&s, 48_000) {
        Resampling::Done(_) => panic!("the rate is wrong"),
        Resampling::Blocks(blocks) => {
            assert_eq!(blocks.len(), 3);
            assert!(blocks.iter().all(|b| b.len() == BLOCK));
            let joined: Vec<Sample> = blocks.concat();
            assert_eq!(joined[..2500].to_vec(), s);
            assert!(joined[2500..].iter().all(|p| p.bits == 0));
        }
    }
    match resample_to_target(&s[..2048], 44_100) {
        Resampling::Done(_) => panic!("the rate is wrong"),
        Resampling::Blocks(blocks) => assert_eq!(blocks.concat(), s[..2048].to_vec()),
    }
}

#[test]
fn an_empty_capture_is_not_resampled() {
    let empty = Captured { samples: Vec::new(), rate: 48_000 };
    assert!(matches!(empty.finish(), Resampling::Done(all) if all.is_empty()));
    let short = Captured { samples: samples(&[0.5]), rate: 48_000 };
    assert!(matches!(short.finish(), Resampling::Blocks(blocks) if blocks.len() == 1));
    let ready = Captured { samples: samples(&[0.5]), rate: 16_000 };
    assert!(matches!(ready.finish(), Resampling::Done(all) if all.len() == 1));
}

#[test]
fn capture_errors_say_what_is_wrong() {
    let reason = || "busy".to_string();
    assert_eq!(CaptureError::NoInputDevice.message(), "no input device");
    assert_eq!(
        CaptureError::NoInputConfig { reason: reason() }.message(),
        "no default input config: busy"
    );
    assert_eq!(
        CaptureError::CannotOpen { reason: reason() }.message(),
        "could not open microphone: busy"
    );
    assert_eq!(
        CaptureError::CannotStart { reason: reason() }.message(),
        "could not start microphone: busy"
    );
    assert_eq!(CaptureError::BufferPoisoned.message(), "audio buffer poisoned");
}
