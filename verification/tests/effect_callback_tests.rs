use qpwgraph::effect_callback::{
    copy_inputs_to_outputs, dangling_input_message, visible_error, BlockPlan, EffectCallback,
    ProcessorAccess, DANGLING_FL, DANGLING_FR, DSP_CHANNELS, MAX_DSP_FRAMES,
};
use qpwgraph::samples::Blocks;

#[derive(Clone, Copy)]
enum ProcessBehavior {
    Gain,
    EmitsConstant,
    ErrorAfterMutation,
    PanicAfterMutation,
    NonFinite,
}

/// A processor that works on samples in place.
struct TestProcessor {
    factor: f32,
    behavior: ProcessBehavior,
    observed_channel_mask: Option<u16>,
    blocks: usize,
}

impl TestProcessor {
    fn new(behavior: ProcessBehavior) -> Self {
        TestProcessor {
            factor: 2.0,
            behavior,
            observed_channel_mask: None,
            blocks: 0,
        }
    }

    /// What comes out, or nothing where the processor fails.
    fn process(&mut self, samples: Vec<u32>) -> Option<Vec<u32>> {
        self.blocks += 1;
        let mut buffer: Vec<f32> = samples.iter().map(|bits| f32::from_bits(*bits)).collect();
        for sample in buffer.iter_mut() {
            *sample *= self.factor;
        }
        match self.behavior {
            ProcessBehavior::Gain => {}
            ProcessBehavior::EmitsConstant => buffer.fill(0.25),
            ProcessBehavior::ErrorAfterMutation | ProcessBehavior::PanicAfterMutation => {
                return None;
            }
            ProcessBehavior::NonFinite => buffer[0] = f32::NAN,
        }
        Some(buffer.iter().map(|sample| sample.to_bits()).collect())
    }
}

fn block(samples: Option<&[f32]>) -> Option<Vec<u32>> {
    samples.map(|samples| samples.iter().map(|sample| sample.to_bits()).collect())
}

fn heard(block: &Option<Vec<u32>>) -> Vec<f32> {
    block
        .as_ref()
        .expect("a live channel")
        .iter()
        .map(|bits| f32::from_bits(*bits))
        .collect()
}

fn run(
    state: &mut EffectCallback,
    processor: &mut TestProcessor,
    access: ProcessorAccess,
    inputs: [Option<&[f32]>; DSP_CHANNELS],
    outputs: [Option<&[f32]>; DSP_CHANNELS],
    frames: usize,
) -> Blocks {
    let inputs = Blocks {
        left: block(inputs[0]),
        right: block(inputs[1]),
    };
    let mut outputs = Blocks {
        left: block(outputs[0]),
        right: block(outputs[1]),
    };
    match state.begin_block(&inputs, &mut outputs, frames as u64, access) {
        BlockPlan::Skip => {}
        BlockPlan::Done(mask) => {
            if let Some(mask) = mask {
                processor.observed_channel_mask = Some(mask);
            }
        }
        BlockPlan::Process { mask, bypass: _, samples } => {
            processor.observed_channel_mask = Some(mask);
            let processed = processor.process(samples);
            state.end_block(&mut outputs, frames, processed, false);
        }
    }
    outputs
}

#[test]
fn dangling_enabled_effect_publishes_exact_silence() {
    let mut state = EffectCallback::new_with_channels(2, true, false);
    let mut processor = TestProcessor::new(ProcessBehavior::EmitsConstant);
    let played = run(
        &mut state,
        &mut processor,
        ProcessorAccess::Free,
        [None, None],
        [Some(&[9.0; 32]), Some(&[9.0; 32])],
        32,
    );
    assert_eq!(heard(&played.left), [0.0; 32]);
    assert_eq!(heard(&played.right), [0.0; 32]);
    assert_eq!(state.dangling_inputs, DANGLING_FL | DANGLING_FR);
}

#[test]
fn a_meter_only_output_cannot_make_a_dangling_effect_generate_audio() {
    let mut state = EffectCallback::new_with_channels(2, true, false);
    let mut processor = TestProcessor::new(ProcessBehavior::EmitsConstant);
    let played = run(
        &mut state,
        &mut processor,
        ProcessorAccess::Free,
        [None, None],
        [Some(&[1.0; 64]), None],
        64,
    );
    assert_eq!(heard(&played.left), [0.0; 64]);
    assert_eq!(played.right, None);
}

#[test]
fn disconnected_channels_cannot_leak_a_processor_tail() {
    let mut state = EffectCallback::new_with_channels(2, true, false);
    let mut processor = TestProcessor::new(ProcessBehavior::EmitsConstant);
    let played = run(
        &mut state,
        &mut processor,
        ProcessorAccess::Free,
        [Some(&[0.5; 16]), None],
        [Some(&[9.0; 16]), Some(&[9.0; 16])],
        16,
    );
    assert_eq!(heard(&played.left), [0.25; 16]);
    assert_eq!(heard(&played.right), [0.0; 16]);

    let played = run(
        &mut state,
        &mut processor,
        ProcessorAccess::Free,
        [None, None],
        [Some(&[9.0; 16]), Some(&[9.0; 16])],
        16,
    );
    assert_eq!(heard(&played.left), [0.0; 16]);
    assert_eq!(heard(&played.right), [0.0; 16]);
}

#[test]
fn disabled_dangling_effect_is_silent() {
    let mut state = EffectCallback::new_with_channels(2, false, false);
    let mut processor = TestProcessor::new(ProcessBehavior::Gain);
    let played = run(
        &mut state,
        &mut processor,
        ProcessorAccess::Free,
        [None, None],
        [Some(&[7.0; 16]), Some(&[7.0; 16])],
        16,
    );
    assert_eq!(heard(&played.left), [0.0; 16]);
    assert_eq!(heard(&played.right), [0.0; 16]);
    assert_eq!(processor.blocks, 0);
}

#[test]
fn partial_stereo_inputs_are_processed_independently() {
    let mut state = EffectCallback::new_with_channels(2, true, false);
    let mut processor = TestProcessor::new(ProcessBehavior::Gain);
    let played = run(
        &mut state,
        &mut processor,
        ProcessorAccess::Free,
        [Some(&[0.25, -0.5, 0.75, -1.0]), None],
        [Some(&[9.0; 4]), Some(&[9.0; 4])],
        4,
    );
    assert_eq!(heard(&played.left), [0.5, -1.0, 1.5, -2.0]);
    assert_eq!(heard(&played.right), [0.0; 4]);
    assert_eq!(state.dangling_inputs, DANGLING_FR);

    let played = run(
        &mut state,
        &mut processor,
        ProcessorAccess::Free,
        [None, Some(&[0.125, -0.25, 0.375, -0.5])],
        [Some(&[9.0; 4]), Some(&[9.0; 4])],
        4,
    );
    assert_eq!(heard(&played.left), [0.0; 4]);
    assert_eq!(heard(&played.right), [0.25, -0.5, 0.75, -1.0]);
    assert_eq!(state.dangling_inputs, DANGLING_FL);
}

#[test]
fn mono_callback_uses_one_interleaved_channel_and_one_output_port() {
    let mut state = EffectCallback::new_with_channels(1, true, false);
    let mut processor = TestProcessor::new(ProcessBehavior::Gain);
    let played = run(
        &mut state,
        &mut processor,
        ProcessorAccess::Free,
        [Some(&[0.25, -0.5, 0.75, -1.0]), None],
        [Some(&[9.0; 4]), None],
        4,
    );
    assert_eq!(heard(&played.left), [0.5, -1.0, 1.5, -2.0]);
    assert_eq!(state.channels, 1);
    assert_eq!(state.dangling_inputs, 0);
}

#[test]
fn input_only_channel_is_not_reported_as_active() {
    let mut state = EffectCallback::new_with_channels(2, true, false);
    let mut processor = TestProcessor::new(ProcessBehavior::Gain);
    processor.observed_channel_mask = Some(u16::MAX);
    let played = run(
        &mut state,
        &mut processor,
        ProcessorAccess::Free,
        [Some(&[0.25; 4]), Some(&[0.75; 4])],
        [Some(&[9.0; 4]), None],
        4,
    );
    assert_eq!(processor.observed_channel_mask, Some(1));
    assert_eq!(heard(&played.left), [0.5; 4]);
}

#[test]
fn lock_contention_is_transparent_on_connected_channels_and_silent_on_missing_channels() {
    let mut state = EffectCallback::new_with_channels(2, true, false);
    let mut processor = TestProcessor::new(ProcessBehavior::Gain);
    let input = [0.25, -0.5, 0.75, -1.0];
    let played = run(
        &mut state,
        &mut processor,
        ProcessorAccess::Busy,
        [Some(&input), None],
        [Some(&[9.0; 4]), Some(&[9.0; 4])],
        4,
    );
    assert_eq!(heard(&played.left), input);
    assert_eq!(heard(&played.right), [0.0; 4]);
    assert_eq!(processor.observed_channel_mask, None);
}

#[test]
fn processor_error_restores_the_sanitized_pass_through_fallback() {
    let mut state = EffectCallback::new_with_channels(2, true, false);
    let mut processor = TestProcessor::new(ProcessBehavior::ErrorAfterMutation);
    let input = [0.25, -0.5, 0.75, -1.0];
    let played = run(
        &mut state,
        &mut processor,
        ProcessorAccess::Free,
        [Some(&input), None],
        [Some(&[9.0; 4]), Some(&[9.0; 4])],
        4,
    );
    assert_eq!(heard(&played.left), input);
    assert_eq!(heard(&played.right), [0.0; 4]);
    assert!(state.processor_failed);
}

#[test]
fn processor_panic_is_caught_and_restores_the_pass_through_fallback() {
    let mut state = EffectCallback::new_with_channels(2, true, false);
    let mut processor = TestProcessor::new(ProcessBehavior::PanicAfterMutation);
    let input = [0.25, -0.5, 0.75, -1.0];
    let played = run(
        &mut state,
        &mut processor,
        ProcessorAccess::Free,
        [Some(&input), None],
        [Some(&[9.0; 4]), Some(&[9.0; 4])],
        4,
    );
    assert_eq!(heard(&played.left), input);
    assert_eq!(heard(&played.right), [0.0; 4]);
    assert!(state.processor_failed);
}

#[test]
fn non_finite_processor_output_is_rejected_without_replacing_the_fallback() {
    let mut state = EffectCallback::new_with_channels(2, true, false);
    let mut processor = TestProcessor::new(ProcessBehavior::NonFinite);
    let input = [0.25, -0.5, 0.75, -1.0];
    let played = run(
        &mut state,
        &mut processor,
        ProcessorAccess::Free,
        [Some(&input), None],
        [Some(&[9.0; 4]), None],
        4,
    );
    assert_eq!(heard(&played.left), input);
    assert!(state.processor_failed);
}

#[test]
fn parameter_changes_cannot_inject_audio_into_missing_channels() {
    let mut state = EffectCallback::new_with_channels(2, true, false);
    let mut processor = TestProcessor::new(ProcessBehavior::Gain);
    for value in [0.0, 0.5, 1.0, 4.0, -2.0] {
        processor.factor = value;
        let played = run(
            &mut state,
            &mut processor,
            ProcessorAccess::Free,
            [None, None],
            [Some(&[3.0; 24]), Some(&[3.0; 24])],
            24,
        );
        assert_eq!(heard(&played.left), [0.0; 24]);
        assert_eq!(heard(&played.right), [0.0; 24]);
    }
}

#[test]
fn repeated_dangling_blocks_remain_silent() {
    let mut state = EffectCallback::new_with_channels(2, true, false);
    let mut processor = TestProcessor::new(ProcessBehavior::EmitsConstant);
    for _ in 0..64 {
        let played = run(
            &mut state,
            &mut processor,
            ProcessorAccess::Free,
            [None, None],
            [Some(&[5.0; 128]), Some(&[5.0; 128])],
            128,
        );
        assert_eq!(heard(&played.left), [0.0; 128]);
        assert_eq!(heard(&played.right), [0.0; 128]);
    }
}

#[test]
fn missing_and_non_finite_inputs_are_read_as_zero() {
    let mut state = EffectCallback::new_with_channels(2, true, false);
    let mut processor = TestProcessor::new(ProcessBehavior::Gain);
    let played = run(
        &mut state,
        &mut processor,
        ProcessorAccess::Free,
        [Some(&[f32::NAN, f32::INFINITY, -f32::INFINITY, 0.25]), None],
        [Some(&[9.0; 4]), None],
        4,
    );
    assert_eq!(heard(&played.left), [0.0, 0.0, 0.0, 0.5]);
}

#[test]
fn dangling_input_diagnostics_are_metadata_only() {
    assert_eq!(dangling_input_message(0), None);
    assert_eq!(
        dangling_input_message(DANGLING_FL),
        Some("effect output is active while the FL input is disconnected")
    );
    assert_eq!(
        dangling_input_message(DANGLING_FR),
        Some("effect output is active while the FR input is disconnected")
    );
    assert_eq!(
        dangling_input_message(DANGLING_FL | DANGLING_FR),
        Some("effect output is active while both inputs are disconnected")
    );
}

#[test]
fn unusable_block_lengths_are_skipped() {
    let mut state = EffectCallback::new_with_channels(2, true, false);
    let inputs = Blocks { left: None, right: None };
    let mut outputs = Blocks { left: None, right: None };
    assert_eq!(
        state.begin_block(&inputs, &mut outputs, 0, ProcessorAccess::Free),
        BlockPlan::Skip
    );
    assert!(state.processor_failed);

    let mut state = EffectCallback::new_with_channels(2, true, false);
    assert_eq!(
        state.begin_block(&inputs, &mut outputs, MAX_DSP_FRAMES + 1, ProcessorAccess::Free),
        BlockPlan::Skip
    );
    assert!(state.processor_failed);
}

#[test]
fn a_delayed_processor_runs_while_it_is_bypassed() {
    let mut state = EffectCallback::new_with_channels(2, false, true);
    let inputs = Blocks {
        left: block(Some(&[0.5, 0.25])),
        right: None,
    };
    let mut outputs = Blocks {
        left: block(Some(&[9.0, 9.0])),
        right: None,
    };
    match state.begin_block(&inputs, &mut outputs, 2, ProcessorAccess::Free) {
        BlockPlan::Process { mask, bypass, samples } => {
            assert_eq!(mask, 1);
            assert!(bypass);
            assert_eq!(
                samples,
                [0.5f32, 0.0, 0.25, 0.0].iter().map(|s| s.to_bits()).collect::<Vec<u32>>()
            );
        }
        other => panic!("unexpected plan: {other:?}"),
    }
}

#[test]
fn a_poisoned_processor_is_a_failure() {
    let mut state = EffectCallback::new_with_channels(2, true, false);
    let mut processor = TestProcessor::new(ProcessBehavior::Gain);
    let input = [0.25, -0.5];
    let played = run(
        &mut state,
        &mut processor,
        ProcessorAccess::Poisoned,
        [Some(&input), None],
        [Some(&[9.0; 2]), None],
        2,
    );
    assert_eq!(heard(&played.left), input);
    assert!(state.processor_failed);
    assert_eq!(processor.blocks, 0);
}

#[test]
fn inputs_are_cleaned_on_their_way_through() {
    let inputs = Blocks {
        left: block(Some(&[f32::NAN, 1.0, f32::NEG_INFINITY])),
        right: None,
    };
    let mut outputs = Blocks {
        left: block(Some(&[9.0; 3])),
        right: block(Some(&[9.0; 3])),
    };
    copy_inputs_to_outputs(&inputs, &mut outputs, 3);
    assert_eq!(heard(&outputs.left), [0.0, 1.0, 0.0]);
    assert_eq!(heard(&outputs.right), [0.0; 3]);
}

#[test]
fn an_effect_shows_its_error_or_what_is_missing() {
    assert_eq!(visible_error(None, false, 0), None);
    assert_eq!(
        visible_error(Some("broken module".to_string()), true, 0),
        Some("broken module".to_string())
    );
    assert_eq!(
        visible_error(Some("broken module".to_string()), true, DANGLING_FL),
        Some("effect output is active while the FL input is disconnected".to_string())
    );
    assert_eq!(
        visible_error(None, false, DANGLING_FR),
        Some("effect output is active while the FR input is disconnected".to_string())
    );
    assert_eq!(
        visible_error(None, true, DANGLING_FR),
        Some("effect processor reported a realtime or worker failure".to_string())
    );
}

#[test]
fn a_missing_input_is_silent_whatever_happens() {
    let behaviors = [
        ProcessBehavior::Gain,
        ProcessBehavior::EmitsConstant,
        ProcessBehavior::ErrorAfterMutation,
        ProcessBehavior::PanicAfterMutation,
        ProcessBehavior::NonFinite,
    ];
    for behavior in behaviors {
        for access in [ProcessorAccess::Free, ProcessorAccess::Busy, ProcessorAccess::Poisoned] {
            for enabled in [true, false] {
                let mut state = EffectCallback::new_with_channels(2, enabled, true);
                let mut processor = TestProcessor::new(behavior);
                let played = run(
                    &mut state,
                    &mut processor,
                    access,
                    [None, Some(&[0.5; 8])],
                    [Some(&[9.0; 8]), Some(&[9.0; 8])],
                    8,
                );
                assert_eq!(heard(&played.left), [0.0; 8]);
                assert_eq!(state.dangling_inputs, DANGLING_FL);
            }
        }
    }
}
