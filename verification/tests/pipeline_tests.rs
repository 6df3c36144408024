use kokoros::audio::{render, AudioBuffer, BITS_PER_SAMPLE, CHANNELS, SAMPLE_RATE};
use kokoros::config::OrtConfig;
use kokoros::device::{select_device, AcceleratorInitError, DevicePlan};
use kokoros::lang::detect_language;
use kokoros::synth::{finish_synthesis, plan_inference, prepare_text, SynthesisError};
use kokoros::tensor::{
    build_request, extract_audio, AudioTensor, InferenceError, NamedTensor, TensorShapeError,
    SPEED_DECI,
};
use kokoros::voice::{StyleResolutionError, VoiceStyleTable, STYLE_BUCKETS, STYLE_DIM};

fn raw_voice(name: &str, base: i64) -> (String, Vec<Vec<Vec<i64>>>) {
    let mut buckets = Vec::new();
    for b in 0..STYLE_BUCKETS {
        let mut row = Vec::new();
        for j in 0..STYLE_DIM {
            if b == 0 {
                row.push(base + j as i64);
            } else {
                row.push(-1);
            }
        }
        buckets.push(vec![row]);
    }
    (name.to_string(), buckets)
}

#[test]
fn default_config_is_cpu_with_fallback() {
    let c = OrtConfig::new();
    assert!(!c.use_gpu);
    assert_eq!(c.gpu_memory_limit, None);
    assert!(c.fallback_to_cpu);
}

#[test]
fn builders_set_their_field_and_keep_the_rest() {
    let c = OrtConfig::new()
        .with_gpu(true)
        .with_gpu_memory_limit(Some(4 * 1024 * 1024 * 1024))
        .with_cpu_fallback(false);
    assert!(c.use_gpu);
    assert_eq!(c.gpu_memory_limit, Some(4 * 1024 * 1024 * 1024));
    assert!(!c.fallback_to_cpu);
}

#[test]
fn cpu_config_never_asks_for_the_accelerator() {
    let c = OrtConfig::new();
    assert_eq!(select_device(&c, false), Ok(DevicePlan::Cpu));
    assert_eq!(select_device(&c, true), Ok(DevicePlan::Cpu));
}

#[test]
fn available_accelerator_is_used_when_requested() {
    let c = OrtConfig::new().with_gpu(true);
    assert_eq!(select_device(&c, true), Ok(DevicePlan::Accelerated));
}

#[test]
fn unavailable_accelerator_falls_back_only_when_allowed() {
    let with_fallback = OrtConfig::new().with_gpu(true).with_cpu_fallback(true);
    assert_eq!(select_device(&with_fallback, false), Ok(DevicePlan::Cpu));
    // fallback disallowed: an error, never a silent CPU run
    let strict = OrtConfig::new().with_gpu(true).with_cpu_fallback(false);
    assert_eq!(select_device(&strict, false), Err(AcceleratorInitError));
}

#[test]
fn ragged_token_batches_are_rejected() {
    let tokens = vec![vec![1i64, 2, 3], vec![4i64, 5]];
    let styles = vec![vec![0i128; STYLE_DIM], vec![0i128; STYLE_DIM]];
    assert!(matches!(
        build_request(&tokens, &styles),
        Err(TensorShapeError::RaggedTokenRows)
    ));
}

#[test]
fn empty_batches_are_rejected() {
    let styles = vec![vec![0i128; STYLE_DIM]];
    assert!(matches!(
        build_request(&Vec::new(), &styles),
        Err(TensorShapeError::EmptyTokenBatch)
    ));
    let tokens = vec![vec![1i64, 2]];
    assert!(matches!(
        build_request(&tokens, &Vec::new()),
        Err(TensorShapeError::EmptyStyleBatch)
    ));
}

#[test]
fn mismatched_and_misshapen_style_batches_are_rejected() {
    let tokens = vec![vec![1i64, 2]];
    let two_styles = vec![vec![0i128; STYLE_DIM], vec![0i128; STYLE_DIM]];
    assert!(matches!(
        build_request(&tokens, &two_styles),
        Err(TensorShapeError::MismatchedBatch)
    ));
    let narrow = vec![vec![0i128; STYLE_DIM - 1]];
    assert!(matches!(
        build_request(&tokens, &narrow),
        Err(TensorShapeError::WrongStyleWidth)
    ));
}

#[test]
fn well_shaped_batches_are_flattened_row_major() {
    let tokens = vec![vec![1i64, 2, 3], vec![4i64, 5, 6]];
    let styles = vec![vec![7i128; STYLE_DIM], vec![8i128; STYLE_DIM]];
    let req = build_request(&tokens, &styles).unwrap();
    assert_eq!(req.batch, 2);
    assert_eq!(req.seq_len, 3);
    assert_eq!(req.tokens, vec![1, 2, 3, 4, 5, 6]);
    assert_eq!(req.style.len(), 2 * STYLE_DIM);
    assert_eq!(req.style[0], 7);
    assert_eq!(req.style[STYLE_DIM], 8);
    assert_eq!(req.speed_deci, SPEED_DECI);
}

#[test]
fn prepare_text_trims_whitespace() {
    let t = prepare_text("  \t Hello world \n").unwrap();
    assert_eq!(t, "Hello world".to_string());
}

#[test]
fn empty_or_blank_text_fails_with_empty_input() {
    assert_eq!(prepare_text(""), Err(SynthesisError::EmptyInput));
    assert_eq!(prepare_text(" \t\r\n "), Err(SynthesisError::EmptyInput));
}

#[test]
fn plan_builds_a_single_row_request_with_boundary_tokens() {
    let table = VoiceStyleTable::load_voices(vec![raw_voice("voiceA", 3)]).unwrap();
    let phonemes = vec!["h@l'oU".to_string(), "w'3:ld".to_string()];
    let req = plan_inference(&table, &phonemes, "voiceA").unwrap();
    let joined_len = "h@l'oU".chars().count() + "w'3:ld".chars().count();
    assert_eq!(req.batch, 1);
    assert_eq!(req.seq_len, joined_len + 2);
    assert_eq!(req.tokens.len(), joined_len + 2);
    assert_eq!(req.tokens[0], 0);
    assert_eq!(req.tokens[req.tokens.len() - 1], 0);
    assert_eq!(req.style.len(), STYLE_DIM);
    for j in 0..STYLE_DIM {
        assert_eq!(req.style[j], 10 * (3 + j as i128));
    }
    assert_eq!(req.speed_deci, SPEED_DECI);
}

#[test]
fn plan_surfaces_style_resolution_failures() {
    let table = VoiceStyleTable::load_voices(vec![raw_voice("voiceA", 3)]).unwrap();
    let phonemes = vec!["ab".to_string()];
    assert_eq!(
        plan_inference(&table, &phonemes, "ghost"),
        Err(SynthesisError::Style(StyleResolutionError::UnknownVoice))
    );
    assert_eq!(
        plan_inference(&table, &phonemes, ""),
        Err(SynthesisError::Style(
            StyleResolutionError::NoValidComponents
        ))
    );
}

#[test]
fn engine_failure_propagates_and_is_never_masked() {
    let r = finish_synthesis(Err("engine exploded".to_string()));
    assert_eq!(
        r,
        Err(SynthesisError::Inference(InferenceError::Engine(
            "engine exploded".to_string()
        )))
    );
}

#[test]
fn missing_audio_output_is_an_error() {
    let outs = vec![NamedTensor {
        name: "other".to_string(),
        tensor: AudioTensor {
            shape: vec![1, 2],
            data: vec![0, 0],
        },
    }];
    assert_eq!(
        finish_synthesis(Ok(outs)),
        Err(SynthesisError::Inference(InferenceError::MissingOutput))
    );
}

#[test]
fn extract_audio_finds_the_named_output() {
    let outs = vec![
        NamedTensor {
            name: "other".to_string(),
            tensor: AudioTensor {
                shape: vec![1],
                data: vec![9],
            },
        },
        NamedTensor {
            name: "audio".to_string(),
            tensor: AudioTensor {
                shape: vec![1, 3],
                data: vec![1, 2, 3],
            },
        },
    ];
    let t = extract_audio(&outs).unwrap();
    assert_eq!(t.shape, vec![1, 3]);
    assert_eq!(t.data, vec![1, 2, 3]);
}

#[test]
fn successful_pipeline_yields_a_mono_buffer_at_fixed_rate() {
    // end-to-end through the verified steps, with the two outside calls
    // (phonemizer, engine) standing in as plain values
    let table = VoiceStyleTable::load_voices(vec![raw_voice("voiceA", 3)]).unwrap();
    let text = prepare_text(" Hello world ").unwrap();
    assert_eq!(text, "Hello world".to_string());
    let phonemes = vec!["h@l'oU w'3:ld".to_string()];
    let req = plan_inference(&table, &phonemes, "voiceA").unwrap();
    assert_eq!(req.batch, 1);

    // a made-up engine result: 4800 samples of the bit pattern of 0.5f32
    let sample_bits = 0.5f32.to_bits();
    let data = vec![sample_bits; 4800];
    let outs = vec![NamedTensor {
        name: "audio".to_string(),
        tensor: AudioTensor {
            shape: vec![1, 4800],
            data: data.clone(),
        },
    }];
    let buffer = finish_synthesis(Ok(outs)).unwrap();
    assert_eq!(buffer.sample_count(), 4800);
    assert_eq!(buffer.samples, data);
    assert_eq!(buffer.duration_ms(), 200);
    assert!(buffer.duration_ms() > 0);
    assert_eq!(SAMPLE_RATE, 24000);
    assert_eq!(CHANNELS, 1);
    assert_eq!(BITS_PER_SAMPLE, 32);
}

#[test]
fn render_keeps_every_sample_in_order() {
    let tensor = AudioTensor {
        shape: vec![5],
        data: vec![10, 20, 30, 40, 50],
    };
    let buffer: AudioBuffer = render(tensor);
    assert_eq!(buffer.samples, vec![10, 20, 30, 40, 50]);
}

#[test]
fn duration_rounds_down_to_whole_milliseconds() {
    let buffer = AudioBuffer {
        samples: vec![0; 47],
    };
    assert_eq!(buffer.duration_ms(), 1);
}

#[test]
fn language_detection_follows_the_script_ranges() {
    assert_eq!(detect_language("\u{4F60}\u{597D}"), "zh-cn".to_string());
    assert_eq!(detect_language("\u{3053}\u{3093}"), "ja-jp".to_string());
    assert_eq!(detect_language("\u{043F}\u{0440}"), "de-de".to_string());
    assert_eq!(detect_language("Hello world"), "en-us".to_string());
    // precedence: an ideograph wins over kana
    assert_eq!(detect_language("\u{3053}\u{4F60}"), "zh-cn".to_string());
}
