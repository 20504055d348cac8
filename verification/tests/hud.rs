use asteroids::hud::{final_score_label, high_score_label, score_label, wave_label};

fn text(chars: Vec<char>) -> String {
    chars.into_iter().collect()
}

#[test]
fn score_is_padded_to_six_digits() {
    assert_eq!(text(score_label(1234)), "SCORE  001234");
    assert_eq!(text(score_label(0)), "SCORE  000000");
    assert_eq!(text(score_label(1234567)), "SCORE  1234567");
    assert_eq!(text(score_label(u32::MAX)), format!("SCORE  {:06}", u32::MAX));
}

#[test]
fn other_readouts() {
    assert_eq!(text(high_score_label(980)), "HIGH  000980");
    assert_eq!(text(wave_label(0)), "WAVE  0");
    assert_eq!(text(wave_label(12)), "WAVE  12");
    assert_eq!(text(final_score_label(100500)), "FINAL SCORE  100500");
}
