use halollm::device::{candidate, Device, ALL_LAYERS};
use halollm::select::{argmax, has_nan, last_position, score_key, score_keys, ShapeError, Span};

fn key(x: f32) -> u32 {
    score_key(x.to_bits())
}

#[test]
fn argmax_picks_highest_score() {
    assert_eq!(argmax(&[3, 9, 4, 1]), 1);
    assert_eq!(argmax(&[7]), 0);
    assert_eq!(argmax(&[1, 2, 3, 4, 5]), 4);
}

#[test]
fn argmax_breaks_ties_by_lowest_index() {
    assert_eq!(argmax(&[2, 8, 5, 8, 8]), 1);
    assert_eq!(argmax(&[4, 4, 4]), 0);
    assert_eq!(argmax(&[0, 1, 1]), 1);
}

#[test]
fn argmax_over_float_keys_breaks_ties_by_lowest_index() {
    let scores = [0.5f32, 2.25, -1.0, 2.25, 2.25];
    let keys: Vec<u32> = scores.iter().map(|s| key(*s)).collect();
    assert_eq!(argmax(&keys), 1);
}

#[test]
fn score_key_exact_values() {
    assert_eq!(score_key(0x0000_0000), 0x8000_0000);
    assert_eq!(score_key(0x8000_0000), 0x8000_0000);
    assert_eq!(score_key(0x3F80_0000), 0xBF80_0000);
    assert_eq!(score_key(0xBF80_0000), 0x407F_FFFF);
    assert_eq!(score_key(0xFFFF_FFFF), 0x0000_0000);
}

#[test]
fn score_key_keeps_float_order() {
    let values = [
        f32::NEG_INFINITY,
        -1.0e30,
        -2.5,
        -1.0,
        -1.0e-30,
        0.0,
        1.0e-30,
        1.0,
        2.5,
        1.0e30,
        f32::INFINITY,
    ];
    for w in values.windows(2) {
        assert!(key(w[0]) < key(w[1]), "{} < {}", w[0], w[1]);
    }
    assert_eq!(key(-0.0), key(0.0));
}

#[test]
fn score_keys_reads_only_the_span() {
    let bits: Vec<u32> = [9.0f32, 1.0, 3.0, -2.0].iter().map(|x| x.to_bits()).collect();
    let keys = score_keys(&bits, Span { start: 1, len: 2 });
    assert_eq!(keys, vec![key(1.0), key(3.0)]);
    assert_eq!(score_keys(&bits, Span { start: 4, len: 0 }), Vec::<u32>::new());
}

#[test]
fn last_position_of_flat_scores() {
    assert_eq!(last_position(&[5], 5), Ok(Span { start: 0, len: 5 }));
    assert_eq!(last_position(&[1, 5], 5), Ok(Span { start: 0, len: 5 }));
}

#[test]
fn last_position_takes_final_sequence_row() {
    assert_eq!(last_position(&[3, 4], 12), Ok(Span { start: 8, len: 4 }));
    assert_eq!(last_position(&[1, 3, 4], 12), Ok(Span { start: 8, len: 4 }));
    assert_eq!(last_position(&[1, 1, 4], 4), Ok(Span { start: 0, len: 4 }));
}

#[test]
fn last_position_rejects_unsupported_shapes() {
    assert_eq!(last_position(&[], 0), Err(ShapeError::Unsupported));
    assert_eq!(last_position(&[2, 3, 4], 24), Err(ShapeError::Unsupported));
    assert_eq!(last_position(&[0, 4], 0), Err(ShapeError::Unsupported));
    assert_eq!(last_position(&[1, 0], 0), Err(ShapeError::Unsupported));
    assert_eq!(last_position(&[1, 1, 1, 4], 4), Err(ShapeError::Unsupported));
}

#[test]
fn last_position_rejects_length_mismatch() {
    assert_eq!(last_position(&[3, 4], 11), Err(ShapeError::LengthMismatch));
    assert_eq!(last_position(&[6], 7), Err(ShapeError::LengthMismatch));
    assert_eq!(last_position(&[usize::MAX, 2], 4), Err(ShapeError::LengthMismatch));
}

#[test]
fn device_preference_is_accelerator_then_cpu() {
    assert_eq!(candidate(0), Some(Device::Accelerator));
    assert_eq!(candidate(1), Some(Device::Cpu));
    assert_eq!(candidate(2), None);
    assert_eq!(Device::Accelerator.gpu_layers(), ALL_LAYERS);
    assert_eq!(Device::Cpu.gpu_layers(), 0);
}

#[test]
fn has_nan_looks_only_inside_the_span() {
    let bits: Vec<u32> = [f32::NAN, 1.0, f32::INFINITY, -0.0].iter().map(|x| x.to_bits()).collect();
    assert!(has_nan(&bits, Span { start: 0, len: 2 }));
    assert!(!has_nan(&bits, Span { start: 1, len: 3 }));
    assert!(has_nan(&[0xFFC0_0000], Span { start: 0, len: 1 }));
    assert!(has_nan(&[0x7F80_0001], Span { start: 0, len: 1 }));
    assert!(!has_nan(&[0x7F80_0000, 0xFF80_0000], Span { start: 0, len: 2 }));
}
