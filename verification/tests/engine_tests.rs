use std::str::FromStr;

use aura_sdk::engines::aura::{
    cache_outputs, cached_output_for, classify_input, empty_cache_shape, format_aura_prompt,
    hexagon_library_dir, is_logits_name, is_stop_token, keeps_as_cache, logits_output_index,
    path_with_library_dir, present_name_for, qnn_backend_path, qnn_cache_file_name,
    qnn_library_dir, strip_verbatim_prefix, token_text, tokens_from_encoding, widen_ids,
    fits_context, DecodeState, InputKind,
};
use aura_sdk::engines::genie::format_genie_prompt;

#[test]
fn genie_prompt_is_wrapped_once() {
    let p = "Explain the benefits of NPU.";
    let once = format_genie_prompt(p);
    assert_eq!(once, "<|user|>\nExplain the benefits of NPU.<|end|>\n<|assistant|>\n");
    assert_eq!(format_genie_prompt(&once), once);
    assert_eq!(format_genie_prompt("<|user|>hi"), "<|user|>hi");
}

#[test]
fn aura_prompt_is_wrapped_once() {
    let once = format_aura_prompt("Hello NPU!");
    assert_eq!(
        once,
        "<|start_header_id|>user<|end_header_id|>\n\nHello NPU!<|eot_id|><|start_header_id|>assistant<|end_header_id|>\n\n"
    );
    assert_eq!(format_aura_prompt(&once), once);
}

#[test]
fn inputs_are_classified_by_name() {
    assert_eq!(classify_input("input_ids"), InputKind::InputIds);
    assert_eq!(classify_input("Input_IDs"), InputKind::InputIds);
    assert_eq!(classify_input("attention_mask"), InputKind::AttentionMask);
    assert_eq!(classify_input("position_ids"), InputKind::PositionIds);
    assert_eq!(classify_input("past_key_values.3.value"), InputKind::PastKeyValues);
    assert_eq!(classify_input("PAST.0.key"), InputKind::PastKeyValues);
    assert_eq!(classify_input("cache_position"), InputKind::Other);
}

#[test]
fn cache_inputs_map_to_present_outputs() {
    assert_eq!(present_name_for("past_key_values.0.key"), "present.0.key");
    assert_eq!(present_name_for("past.1.value"), "present.1.value");
    assert_eq!(present_name_for("other"), "other");
    assert!(keeps_as_cache("present.0.key"));
    assert!(!keeps_as_cache("logits"));
}

#[test]
fn logits_output_is_found() {
    let names: Vec<String> = ["present.0.key", "logits", "output"].iter().map(|s| s.to_string()).collect();
    assert_eq!(logits_output_index(&names), 1);
    let names: Vec<String> = ["a", "output_0"].iter().map(|s| s.to_string()).collect();
    assert_eq!(logits_output_index(&names), 1);
    let names: Vec<String> = ["a", "output_1"].iter().map(|s| s.to_string()).collect();
    assert_eq!(logits_output_index(&names), 0);
    assert!(is_logits_name("output"));
    assert!(!is_logits_name("outputs"));
}

#[test]
fn empty_cache_shape_fixes_dynamic_dims() {
    assert_eq!(empty_cache_shape(&vec![-1, 8, -1, 64]), vec![1, 8, 0, 64]);
    assert_eq!(empty_cache_shape(&vec![-1, 3]), vec![1, 3]);
    assert_eq!(empty_cache_shape(&vec![]), Vec::<i64>::new());
}

#[test]
fn stop_tokens() {
    for t in [128001, 128009, 2, 1] {
        assert!(is_stop_token(t));
    }
    for t in [0, 3, 128000, -1] {
        assert!(!is_stop_token(t));
    }
}

#[test]
fn qnn_paths() {
    assert_eq!(hexagon_library_dir("C:\\QAIRT"), "C:\\QAIRT\\lib\\hexagon-v73\\unsigned");
    assert_eq!(qnn_library_dir("C:\\QAIRT"), "C:\\QAIRT\\lib\\aarch64-windows-msvc");
    assert_eq!(qnn_backend_path("C:\\QAIRT"), "C:\\QAIRT\\lib\\aarch64-windows-msvc\\QnnHtp.dll");
    assert_eq!(path_with_library_dir("C:\\bin", "C:\\lib"), Some("C:\\lib;C:\\bin".to_string()));
    assert_eq!(path_with_library_dir("C:\\lib;C:\\bin", "C:\\lib"), None);
    assert_eq!(qnn_cache_file_name("model_q4"), "model_q4_qnn_cache.bin");
    assert_eq!(strip_verbatim_prefix(r"\\?\C:\models\m.bin"), r"C:\models\m.bin");
    assert_eq!(strip_verbatim_prefix(r"C:\m.bin"), r"C:\m.bin");
}

#[test]
fn decode_loop_feeds_prompt_then_single_tokens() {
    let mut d = DecodeState::new(vec![10, 11, 12], 3);
    assert!(!d.is_finished());
    assert_eq!(d.input_ids(), vec![10, 11, 12]);
    assert_eq!(d.input_ids_shape(), vec![1, 3]);
    assert_eq!(d.past_len(), 0);
    assert_eq!(d.position_ids(), vec![0, 1, 2]);
    assert_eq!(d.attention_mask(), vec![1, 1, 1]);
    assert_eq!(d.attention_mask_shape(), vec![1, 3]);
    assert!(d.has_room());
    assert!(d.advance(42));
    assert_eq!(d.input_ids(), vec![42]);
    assert_eq!(d.past_len(), 3);
    assert_eq!(d.position_ids(), vec![3]);
    assert_eq!(d.attention_mask(), vec![1, 1, 1, 1]);
    assert!(d.advance(43));
    assert!(!d.is_finished());
    assert!(d.advance(44));
    assert!(d.is_finished());
    assert_eq!(d.tokens(), &vec![10, 11, 12, 42, 43, 44]);
}

#[test]
fn decode_loop_stops_on_stop_token() {
    let mut d = DecodeState::new(vec![10], 100);
    assert!(d.advance(5));
    assert!(!d.advance(128009));
    assert!(d.is_finished());
    assert_eq!(d.tokens(), &vec![10, 5]);
}

#[test]
fn decode_loop_with_no_steps_is_finished() {
    let d = DecodeState::new(vec![1, 2], 0);
    assert!(d.is_finished());
}

const TOKENIZER_JSON: &str = r#"{"version":"1.0","truncation":null,"padding":null,"added_tokens":[],"normalizer":null,"pre_tokenizer":{"type":"WhitespaceSplit"},"post_processor":null,"decoder":null,"model":{"type":"WordLevel","vocab":{"<unk>":0,"hello":1,"world":2},"unk_token":"<unk>"}}"#;

#[test]
fn tokenizer_answers_are_taken_over() {
    let tok = tokenizers::Tokenizer::from_str(TOKENIZER_JSON).unwrap();
    let prompt = format_aura_prompt("hello world");
    let encoded = tok
        .encode(prompt.as_str(), true)
        .map(|e| e.get_ids().to_vec())
        .map_err(|e| e.to_string());
    // the template's markers stand apart from the first word and stick to the last
    assert_eq!(tokens_from_encoding(encoded), Ok(vec![0, 1, 0]));
    let decoded = tok.decode(&[2], true).map_err(|e| e.to_string());
    assert_eq!(token_text(decoded), "world");
    let unknown = tok.decode(&[99], true).map_err(|e| e.to_string());
    assert_eq!(token_text(unknown), "");
}

#[test]
fn cache_is_handed_on_by_name() {
    let cached: Vec<String> = ["present.0.key", "present.0.value", "present.1.key"]
        .iter()
        .map(|s| s.to_string())
        .collect();
    assert_eq!(cached_output_for("past_key_values.0.value", &cached), Some(1));
    assert_eq!(cached_output_for("past_key_values.1.key", &cached), Some(2));
    assert_eq!(cached_output_for("past_key_values.2.key", &cached), None);
    assert_eq!(cached_output_for("past.0.key", &Vec::new()), None);
    let outputs: Vec<String> = ["logits", "present.0.key", "hidden", "present.0.value"]
        .iter()
        .map(|s| s.to_string())
        .collect();
    assert_eq!(cache_outputs(&outputs), vec![1, 3]);
    assert_eq!(cache_outputs(&Vec::new()), Vec::<usize>::new());
}

#[test]
fn widen_keeps_values() {
    assert_eq!(widen_ids(&vec![0, 7, u32::MAX]), vec![0, 7, u32::MAX as i64]);
}

#[test]
fn encoding_results_are_widened_or_passed_on() {
    assert_eq!(tokens_from_encoding(Ok(vec![3, 4])), Ok(vec![3i64, 4]));
    assert_eq!(tokens_from_encoding(Err("bad".to_string())), Err("bad".to_string()));
}

#[test]
fn decoding_failure_shows_nothing() {
    assert_eq!(token_text(Ok("Hi".to_string())), "Hi");
    assert_eq!(token_text(Err("bad".to_string())), "");
}

#[test]
fn context_limit() {
    assert!(fits_context(0));
    assert!(fits_context(1 << 20));
}
