use text2track::pure_tone::PureTones;
use text2track::pure_tone::SynthError;
use text2track::pure_tone::SynthPlan;
use text2track::pure_tone::ToneAndDuration;
use text2track::pure_tone::envelope_numerator;
use text2track::pure_tone::fade_frames;
use text2track::pure_tone::frame_source;
use text2track::pure_tone::frames_of_ticks;
use text2track::pure_tone::frames_within_limit;
use text2track::pure_tone::synthesis_plan;
use text2track::pure_tone::total_frames;

fn tone(frequency_centihz: u32, duration_ticks: u32) -> ToneAndDuration {
    ToneAndDuration { frequency_centihz, duration_ticks }
}

/// The renderer the library's plan is written for: a sine oscillator restarted
/// at phase zero for every segment, the planned envelope, concatenation
/// truncated or padded to the planned total, and rounding quantization.
fn render(sample_rate: u32, track: Vec<ToneAndDuration>) -> Result<PureTones, SynthError> {
    if !frames_within_limit(sample_rate, &track) {
        return Err(SynthError::InvalidInput);
    }
    let plan: SynthPlan = synthesis_plan(sample_rate, &track)?;
    let mut parts: Vec<Vec<i16>> = Vec::new();
    for seg in &plan.segments {
        let hz = seg.frequency_centihz as f64 / 100.0;
        let mut run: Vec<i16> = Vec::new();
        let mut i: u64 = 0;
        while i < seg.frames {
            let factor = if plan.fade_frames == 0 {
                1.0
            } else {
                envelope_numerator(i, seg.frames, plan.fade_frames) as f64
                    / plan.fade_frames as f64
            };
            let s = (2.0 * std::f64::consts::PI * hz * i as f64 / sample_rate as f64).sin()
                * factor;
            let q = (s * 32767.0).round().clamp(-32767.0, 32767.0);
            run.push(q as i16);
            i += 1;
        }
        parts.push(run);
    }
    Ok(PureTones::assemble(plan.total_frames, &parts))
}

#[test]
fn test_assemble_truncates_from_the_end() {
    let parts = vec![vec![1, 2, 3], vec![4, 5]];
    let out = PureTones::assemble(4, &parts);
    assert_eq!(out.samples, vec![1, 2, 3, 4]);
}

#[test]
fn test_assemble_pads_with_trailing_silence() {
    let parts = vec![vec![1, 2, 3], vec![4, 5]];
    let out = PureTones::assemble(7, &parts);
    assert_eq!(out.samples, vec![1, 2, 3, 4, 5, 0, 0]);
}

#[test]
fn test_assemble_exact_fit() {
    let parts = vec![vec![9, 8], vec![], vec![7]];
    let out = PureTones::assemble(3, &parts);
    assert_eq!(out.samples, vec![9, 8, 7]);
}

#[test]
fn test_total_length_single_second() {
    // 440 Hz for one second at 44100 frames per second.
    let track = vec![tone(44000, 24)];
    let out = render(44100, track).unwrap();
    assert_eq!(out.samples.len(), 44100);
}

#[test]
fn test_total_length_rounding() {
    // 0.75 s at 44100: round(44100 * 3 / 4) = 33075 frames.
    let track = vec![tone(44000, 18)];
    assert!(frames_within_limit(44100, &track));
    assert_eq!(total_frames(44100, &track), 33075);
    let out = render(44100, track).unwrap();
    assert_eq!(out.samples.len(), 33075);
}

#[test]
fn test_empty_track_gives_empty_buffer() {
    let out = render(44100, Vec::new()).unwrap();
    assert_eq!(out.samples.len(), 0);
}

#[test]
fn test_truncation_from_the_end() {
    // At one frame per second, each 13-tick event rounds up to one frame, but
    // the 26-tick whole rounds to one frame: the concatenation is cut, never
    // the aggregate grown.
    let track = vec![tone(100, 13), tone(100, 13)];
    let plan = synthesis_plan(1, &track).unwrap();
    assert_eq!(plan.segments[0].frames, 1);
    assert_eq!(plan.segments[1].frames, 1);
    assert_eq!(plan.total_frames, 1);
    let out = render(1, track).unwrap();
    assert_eq!(out.samples.len(), 1);
}

#[test]
fn test_padding_with_silence() {
    // Each 11-tick event rounds down to zero frames, but the 22-tick whole
    // rounds up to one frame: the missing tail is silence.
    let track = vec![tone(100, 11), tone(100, 11)];
    let plan = synthesis_plan(1, &track).unwrap();
    assert_eq!(plan.segments[0].frames, 0);
    assert_eq!(plan.segments[1].frames, 0);
    assert_eq!(plan.total_frames, 1);
    assert_eq!(frame_source(&plan, 0), None);
    let out = render(1, track).unwrap();
    assert_eq!(out.samples, vec![0]);
}

#[test]
fn test_invalid_sample_rate() {
    let r = synthesis_plan(0, &vec![tone(44000, 12)]);
    assert!(matches!(r, Err(SynthError::InvalidInput)));
}

#[test]
fn test_invalid_duration() {
    let r = synthesis_plan(1000, &vec![tone(44000, 0)]);
    assert!(matches!(r, Err(SynthError::InvalidInput)));
}

#[test]
fn test_invalid_frequency() {
    let r = synthesis_plan(1000, &vec![tone(0, 12)]);
    assert!(matches!(r, Err(SynthError::InvalidInput)));
}

#[test]
fn test_frames_limit_refuses_overflow() {
    let track = vec![
        tone(1, u32::MAX),
        tone(1, u32::MAX),
        tone(1, u32::MAX),
        tone(1, u32::MAX),
        tone(1, u32::MAX),
    ];
    assert!(!frames_within_limit(u32::MAX, &track));
}

#[test]
fn test_fade_window() {
    assert_eq!(fade_frames(44100), 441);
    assert_eq!(fade_frames(1000), 10);
    assert_eq!(fade_frames(49), 0);
    assert_eq!(fade_frames(50), 1);
}

#[test]
fn test_frames_of_ticks_rounds_half_up() {
    // 1 Hz of frames, 13 ticks: 13/24 of a frame rounds to one.
    assert_eq!(frames_of_ticks(1, 13), 1);
    assert_eq!(frames_of_ticks(1, 11), 0);
    assert_eq!(frames_of_ticks(44100, 24), 44100);
}

#[test]
fn test_envelope_starts_silent_and_ramps() {
    // A one-second run at 44100: fade window 441 frames, no overlap.
    assert_eq!(envelope_numerator(0, 44100, 441), 0);
    let mut prev: u64 = 0;
    for i in 1u64..441 {
        let n = envelope_numerator(i, 44100, 441);
        assert!(n > prev);
        prev = n;
    }
    // Sustain region sits at full amplitude.
    assert_eq!(envelope_numerator(22050, 44100, 441), 441);
    // The final frames ramp back down.
    assert_eq!(envelope_numerator(44099, 44100, 441), 1);
}

#[test]
fn test_envelope_overlap_midpoint_is_min_of_ramps() {
    // A 15-frame run with a 10-frame fade window: the windows overlap, and at
    // the midpoint frame 7 the factor is min(7, 15 - 7)/10 = 7/10, with no
    // clamping to the nominal sustain level.
    let duration: u64 = 15;
    let fade: u64 = 10;
    let mid = duration / 2;
    let up = mid;
    let down = duration - mid;
    assert_eq!(envelope_numerator(mid, duration, fade), up.min(down));
}

#[test]
fn test_every_sample_in_range() {
    let out = render(8000, vec![tone(44000, 7), tone(88000, 3), tone(26163, 24)]).unwrap();
    assert!(!out.samples.is_empty());
    for s in out.samples {
        assert!((-32767..=32767).contains(&(s as i32)));
    }
}

#[test]
fn test_determinism() {
    let track = vec![tone(44000, 12), tone(88000, 18)];
    let a = render(22050, track.clone()).unwrap();
    let b = render(22050, track).unwrap();
    assert_eq!(a.samples, b.samples);
}

#[test]
fn test_scenario_one_second_440hz() {
    // 44100 frames; silent first frame; mid-sustain frame matches the raw
    // quantized oscillator because the envelope factor there is one.
    let out = render(44100, vec![tone(44000, 24)]).unwrap();
    assert_eq!(out.samples.len(), 44100);
    assert_eq!(out.samples[0], 0);
    let phase = 2.0 * std::f64::consts::PI * 440.0 * 22050.0 / 44100.0;
    let expected = (phase.sin() * 32767.0).round() as i16;
    assert!((out.samples[22050] as i32 - expected as i32).abs() <= 1);
}

#[test]
fn test_scenario_two_notes_at_1000() {
    // Two half-second notes at 1000 frames per second: 1000 frames in all;
    // frame 499 sits on the first note's down-ramp, frame 500 restarts the
    // second note at phase zero with a silent up-ramp start.
    let track = vec![tone(44000, 12), tone(88000, 12)];
    let plan = synthesis_plan(1000, &track).unwrap();
    assert_eq!(plan.total_frames, 1000);
    assert_eq!(frame_source(&plan, 499), Some((0, 499)));
    assert_eq!(frame_source(&plan, 500), Some((1, 0)));
    assert_eq!(envelope_numerator(499, 500, plan.fade_frames), 1);
    assert_eq!(envelope_numerator(0, 500, plan.fade_frames), 0);
    let out = render(1000, track).unwrap();
    assert_eq!(out.samples.len(), 1000);
    let down = (2.0 * std::f64::consts::PI * 440.0 * 499.0 / 1000.0).sin() * 0.1;
    let expected = (down * 32767.0).round() as i16;
    assert!((out.samples[499] as i32 - expected as i32).abs() <= 1);
    assert_eq!(out.samples[500], 0);
}
