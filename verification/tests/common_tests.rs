use aura_sdk::common::{Args, CallbackAction, Fragment, SentenceCode, Stats};

fn text(s: &str) -> Fragment {
    Fragment::Text(s.to_string())
}

#[test]
fn new_stats_are_fresh() {
    let s = Stats::new(512);
    assert!(!s.is_done());
    assert_eq!(s.get_token_count(), 0);
    assert!(!s.first_token_seen());
}

#[test]
fn ordinary_fragment_is_printed_and_counted() {
    let mut s = Stats::new(10);
    let a = s.on_fragment(&text("Hello"), SentenceCode::Continue);
    assert!(a == CallbackAction { record_first_token: true, print: true });
    assert_eq!(s.get_token_count(), 1);
    assert!(!s.is_done());
    let b = s.on_fragment(&text(" world"), SentenceCode::Continue);
    assert!(b == CallbackAction { record_first_token: false, print: true });
    assert_eq!(s.get_token_count(), 2);
}

#[test]
fn each_stop_marker_ends_streaming_without_printing() {
    for marker in ["<|end|>", "<|user|>", "<|endoftext|>", "</s>", "abc</s>def"] {
        let mut s = Stats::new(10);
        let a = s.on_fragment(&text(marker), SentenceCode::Continue);
        assert!(!a.print, "{marker}");
        assert!(s.is_done());
        assert_eq!(s.get_token_count(), 0);
    }
}

#[test]
fn done_is_final() {
    let mut s = Stats::new(10);
    s.on_fragment(&text("x"), SentenceCode::End);
    assert!(s.is_done());
    let a = s.on_fragment(&text("more"), SentenceCode::Continue);
    assert!(a == CallbackAction { record_first_token: false, print: false });
    assert_eq!(s.get_token_count(), 1);
    assert!(s.is_done());
}

#[test]
fn sentence_codes_that_end_the_answer() {
    for (code, ends) in [
        (SentenceCode::Complete, true),
        (SentenceCode::End, true),
        (SentenceCode::Abort, true),
        (SentenceCode::Begin, false),
        (SentenceCode::Continue, false),
        (SentenceCode::Rewind, false),
        (SentenceCode::Other, false),
    ] {
        let mut s = Stats::new(10);
        let a = s.on_fragment(&Fragment::Missing, code);
        assert!(!a.print);
        assert!(!a.record_first_token);
        assert_eq!(s.is_done(), ends);
    }
}

#[test]
fn undecodable_fragment_only_notes_the_first_token() {
    let mut s = Stats::new(10);
    let a = s.on_fragment(&Fragment::Undecodable, SentenceCode::Continue);
    assert!(a == CallbackAction { record_first_token: true, print: false });
    assert!(s.first_token_seen());
    assert_eq!(s.get_token_count(), 0);
    assert!(!s.is_done());
}

#[test]
fn token_limit_stops_at_the_limit() {
    let mut s = Stats::new(2);
    let a = s.on_fragment(&text("a"), SentenceCode::Continue);
    assert!(a.print);
    assert!(!s.is_done());
    let b = s.on_fragment(&text("b"), SentenceCode::Continue);
    assert!(b.print);
    assert!(s.is_done());
    assert_eq!(s.get_token_count(), 2);
    let c = s.on_fragment(&text("c"), SentenceCode::Continue);
    assert!(!c.print);
    assert_eq!(s.get_token_count(), 2);
}

#[test]
fn limit_of_one_prints_one_fragment() {
    let mut s = Stats::new(1);
    assert!(s.on_fragment(&text("a"), SentenceCode::Continue).print);
    assert!(s.is_done());
    assert!(!s.on_fragment(&text("b"), SentenceCode::Continue).print);
    assert_eq!(s.get_token_count(), 1);
}

#[test]
fn zero_token_limit_prints_nothing() {
    let mut s = Stats::new(0);
    let a = s.on_fragment(&text("t"), SentenceCode::Continue);
    assert!(!a.print);
    assert!(a.record_first_token);
    assert!(s.is_done());
    assert_eq!(s.get_token_count(), 0);
}

#[test]
fn whitespace_loop_is_cut_after_six_blank_fragments() {
    let mut s = Stats::new(100);
    s.on_fragment(&text("word"), SentenceCode::Continue);
    for i in 0..6 {
        let a = s.on_fragment(&text(" \n"), SentenceCode::Continue);
        assert!(a.print, "blank fragment {i}");
        assert!(!s.is_done());
    }
    let a = s.on_fragment(&text("\t"), SentenceCode::Continue);
    assert!(!a.print);
    assert!(s.is_done());
    assert_eq!(s.get_token_count(), 7);
}

#[test]
fn whitespace_run_is_reset_by_text() {
    let mut s = Stats::new(100);
    s.on_fragment(&text("word"), SentenceCode::Continue);
    for _ in 0..6 {
        s.on_fragment(&text(" "), SentenceCode::Continue);
    }
    s.on_fragment(&text("again"), SentenceCode::Continue);
    for _ in 0..6 {
        let a = s.on_fragment(&text(" "), SentenceCode::Continue);
        assert!(a.print);
    }
    assert!(!s.is_done());
}

#[test]
fn whitespace_before_any_token_never_stops() {
    let mut s = Stats::new(100);
    for _ in 0..20 {
        s.on_fragment(&text("\u{3000}"), SentenceCode::Continue);
    }
    // the first blank fragment is printed and counted, so the loop cut comes later
    assert!(s.is_done());
    let mut t = Stats::new(100);
    for _ in 0..20 {
        t.on_fragment(&Fragment::Undecodable, SentenceCode::Continue);
    }
    assert!(!t.is_done());
}

#[test]
fn empty_fragment_is_not_blank() {
    let mut s = Stats::new(100);
    s.on_fragment(&text("word"), SentenceCode::Continue);
    for _ in 0..10 {
        let a = s.on_fragment(&text(""), SentenceCode::Continue);
        assert!(a.print);
    }
    assert!(!s.is_done());
    assert_eq!(s.get_token_count(), 11);
}

#[test]
fn count_stays_within_limit() {
    let mut s = Stats::new(5);
    let mut printed = 0;
    for _ in 0..50 {
        if s.on_fragment(&text("t"), SentenceCode::Begin).print {
            printed += 1;
        }
        assert!(s.get_token_count() <= 5);
        assert_eq!(s.get_token_count(), printed);
    }
    assert_eq!(s.get_token_count(), 5);
}

#[test]
fn args_hold_their_fields() {
    let a = Args {
        config: "phi_3_5_mini_instruct-genie-w4a16-qualcomm/genie_config.json".to_string(),
        prompt: "Explain quantum physics in one sentence.".to_string(),
        max_tokens: 512,
        verbose: false,
        ort: false,
        model: None,
        soc_model: "43".to_string(),
    };
    assert_eq!(a.max_tokens, 512);
    assert!(a.model.is_none());
}
